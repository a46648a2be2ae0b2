use std::collections::BTreeMap;

use juicehost::config::security::DangerLevel;
use juicehost::error::{BlockReason, IoError, IoFailure, JuicehostError, Step, StorageError};
use juicehost::handlers::auth::{
    check_ban, pass_api_key_or_ticket, require_api_key, require_api_key_or_ticket,
};
use juicehost::handlers::headers::{valid_header_value, Header, Headers};
use juicehost::handlers::json::{JsonField, JsonObject, JsonPayload, JsonValue};
use juicehost::handlers::manage::{
    check_backend_health, concat_files, config_handler, delete_done, health, health_reply,
    index_handler, rename_done, stat_done, stat_file, storage_handler, ConcatEvent, ConcatStep,
};
use juicehost::handlers::reply::{Reply, ReplyBody};
use juicehost::handlers::serve::{serve_file_wildcard, ServeEvent, ServeStep};
use juicehost::handlers::store::{
    store_file, store_file_streaming, store_file_ticket, StoreEvent, StoreStep, Upload,
};
use juicehost::handlers::upload::{
    field_kind, FieldKind, FieldRead, FileValidation, SizedStream, TicketClaims,
};
use juicehost::state::AppState;
use juicehost::storage::local::{
    etag_from_metadata, reservation_name, temp_name, DirEntry, EntryKind, FileStat, LocalBackend,
    StatPlan,
};
use juicehost::storage::local_ops::{
    open_regular, stream_item, DeletePlan, LocalRename, OpenOutcome, RangeRead, RenameEvent,
    RenameStep, StreamItem,
};
use juicehost::storage::local_write::{LocalWrite, WriteEvent, WriteStep};
use juicehost::storage::{FileData, FileMetadata};

/// A host whose storage directory is in memory.
struct Host {
    backend: LocalBackend,
    disk: BTreeMap<String, Vec<u8>>,
    free: u64,
    temps: u64,
    state: AppState,
    permits: bool,
}

fn state(api_key: &str, secret: &str) -> AppState {
    AppState {
        api_key: api_key.to_owned(),
        allowed_origins: vec![],
        min_free_space_bytes: 0,
        max_file_size_bytes: 10 * 1024 * 1024,
        backend_url: None,
        frontend_url: None,
        danger_level: DangerLevel::High,
        default_ttl_hours: 24.0f64.to_bits(),
        allowed_ttl_hours: vec![1.0f64.to_bits(), 24.0f64.to_bits(), 168.0f64.to_bits()],
        quick_link: false,
        custom_id: false,
        ticket_jwt_secret: secret.to_owned(),
        ip_pepper: String::new(),
        ban_list_file: None,
        ban_sync_url: None,
        ban_sync_interval: 30,
        max_range_response_bytes: 16 * 1024 * 1024,
        max_concat_parts: 128,
        tcp_body_inactivity: 30,
        tcp_request_total: 600,
        upload_permits: 16,
        download_permits: 64,
    }
}

fn host(api_key: &str, secret: &str) -> Host {
    Host {
        backend: LocalBackend::new(Ok(true), 0).unwrap(),
        disk: BTreeMap::new(),
        free: u64::MAX,
        temps: 0,
        state: state(api_key, secret),
        permits: true,
    }
}

fn local() -> Host {
    host("test-api-key", "")
}

fn headers(list: &[(&str, &str)]) -> Headers {
    Headers {
        entries: list
            .iter()
            .map(|(name, value)| Header {
                name: name.to_string(),
                value: Some(value.to_string()),
            })
            .collect(),
    }
}

fn with_key() -> Headers {
    headers(&[("x-juicehost-api-key", "test-api-key")])
}

fn payload(fields: Vec<(&str, JsonField)>) -> JsonPayload {
    JsonPayload {
        fields: fields
            .into_iter()
            .map(|(name, field)| (name.to_owned(), field))
            .collect(),
    }
}

fn text(value: &str) -> JsonField {
    JsonField::Text(value.to_owned())
}

fn list(values: &[&str]) -> JsonField {
    JsonField::List(values.iter().map(|v| Some(v.to_string())).collect())
}

/// Blocks programs by their extension and by their first bytes.
fn validate(filename: &str, data: &[u8]) -> FileValidation {
    if data.is_empty() {
        FileValidation::Empty
    } else if filename.ends_with(".exe") || data.starts_with(b"MZ") {
        FileValidation::Blocked("Programs are not allowed".to_owned())
    } else {
        FileValidation::Allowed
    }
}

fn missing() -> IoError {
    IoError::NotFound("no such file".to_owned())
}

fn taken() -> IoError {
    IoError::AlreadyExists("file exists".to_owned())
}

/// A write on the way.
struct Writing {
    write: LocalWrite,
    temp: String,
    chunks: std::vec::IntoIter<Result<Vec<u8>, StorageError>>,
    current: Vec<u8>,
}

impl Writing {
    fn over(&self) -> bool {
        matches!(self.write.step, WriteStep::Finished { .. })
    }

    fn result(self) -> Result<u64, StorageError> {
        match self.write.step {
            WriteStep::Finished { result } => result,
            step => panic!("{step:?}"),
        }
    }
}

impl Host {
    fn stat_of(&self, name: &str) -> FileStat {
        FileStat {
            regular: true,
            len: self.disk[name].len() as u64,
            inode: 7,
            modified: 1000,
        }
    }

    fn create(&mut self, name: String) -> WriteEvent {
        if self.disk.contains_key(&name) {
            WriteEvent::Failed(taken())
        } else {
            self.disk.insert(name, vec![]);
            WriteEvent::Done
        }
    }

    /// Starts a write, with a temporary file of its own.
    fn start(&mut self, write: LocalWrite, chunks: Vec<Result<Vec<u8>, StorageError>>) -> Writing {
        self.temps += 1;
        let temp = temp_name(&write.id, 42, self.temps);
        Writing {
            write,
            temp,
            chunks: chunks.into_iter(),
            current: vec![],
        }
    }

    /// Does what a write asks for next.
    fn advance(&mut self, mut writing: Writing) -> Writing {
        let write = writing.write;
        let temp = &writing.temp;
        let event = match &write.step {
            WriteStep::Reserve => self.create(reservation_name(&write.id)),
            WriteStep::CheckSpace => WriteEvent::Space(self.free),
            WriteStep::CreateTemp => self.create(temp.clone()),
            WriteStep::NextChunk { .. } => match writing.chunks.next() {
                None => WriteEvent::End,
                Some(Ok(bytes)) => {
                    writing.current = bytes;
                    WriteEvent::Chunk(writing.current.len() as u64)
                }
                Some(Err(e)) => WriteEvent::Broken(e),
            },
            WriteStep::WriteChunk { .. } => {
                let file = self.disk.get_mut(temp).unwrap();
                file.extend_from_slice(&writing.current);
                WriteEvent::Done
            }
            WriteStep::OpenPart { index } | WriteStep::StatPart { index } => {
                let name = self.backend.resolve_path(&write.parts[*index]).unwrap();
                if self.disk.contains_key(&name) {
                    WriteEvent::Opened(true)
                } else {
                    WriteEvent::Failed(missing())
                }
            }
            WriteStep::CopyPart { index } => {
                let name = self.backend.resolve_path(&write.parts[*index]).unwrap();
                let bytes = self.disk[&name].clone();
                self.disk.get_mut(temp).unwrap().extend_from_slice(&bytes);
                WriteEvent::Done
            }
            WriteStep::Flush { .. } => WriteEvent::Done,
            WriteStep::Publish { .. } => {
                let target = format!("{}.{}", write.id, write.ext);
                if self.disk.contains_key(&target) {
                    WriteEvent::Failed(taken())
                } else {
                    let bytes = self.disk.remove(temp).unwrap();
                    self.disk.insert(target, bytes);
                    WriteEvent::Done
                }
            }
            WriteStep::DeletePart { index } => {
                match self.backend.delete(&write.parts[*index], None) {
                    DeletePlan::Remove(name) => {
                        self.disk.remove(&name);
                        WriteEvent::Done
                    }
                    _ => WriteEvent::Failed(missing()),
                }
            }
            WriteStep::Discard { .. } => {
                self.disk.remove(temp);
                WriteEvent::Done
            }
            WriteStep::Release { .. } => {
                self.disk.remove(&reservation_name(&write.id));
                WriteEvent::Done
            }
            WriteStep::Finished { .. } => WriteEvent::Done,
        };
        writing.write = write.step(&mut self.backend, event);
        writing
    }

    fn run(
        &mut self,
        write: LocalWrite,
        chunks: Vec<Result<Vec<u8>, StorageError>>,
    ) -> Result<u64, StorageError> {
        let mut writing = self.start(write, chunks);
        while !writing.over() {
            writing = self.advance(writing);
        }
        writing.result()
    }

    fn put(&mut self, id: &str, filename: &str, data: &[u8]) -> Result<u64, StorageError> {
        let write = LocalWrite::put_stream(id, filename, None);
        self.run(write, vec![Ok(data.to_vec())])
    }

    fn stat(&mut self, id: &str) -> Result<FileMetadata, StorageError> {
        match self.backend.stat(id) {
            StatPlan::Cached(meta) => Ok(meta),
            StatPlan::Missing => Err(StorageError::NotFound),
            StatPlan::Probe(name) => {
                let found = if self.disk.contains_key(&name) {
                    Ok(self.stat_of(&name))
                } else {
                    Err(missing())
                };
                self.backend.stat_found(id, &name, found)
            }
        }
    }

    fn get(&mut self, id: &str) -> Result<FileData, StorageError> {
        let name = self.backend.resolve_path(id).ok_or(StorageError::NotFound)?;
        let outcome = if self.disk.contains_key(&name) {
            OpenOutcome::Opened(true)
        } else {
            OpenOutcome::Failed(missing())
        };
        open_regular(outcome)?;
        let stat = self.stat_of(&name);
        let data = self.disk[&name].clone();
        self.backend.get_done(id, &name, Ok(stat), Ok(data))
    }

    fn delete(&mut self, id: &str, capability: Option<&str>) -> Result<bool, StorageError> {
        match self.backend.delete(id, capability) {
            DeletePlan::Absent => Ok(false),
            DeletePlan::Forbidden => Err(StorageError::Forbidden),
            DeletePlan::Remove(name) => {
                let outcome = match self.disk.remove(&name) {
                    Some(_) => Ok(()),
                    None => Err(missing()),
                };
                self.backend.delete_done(id, outcome)
            }
        }
    }

    fn rename(&mut self, old: &str, new: &str, capability: Option<&str>) -> Result<(), StorageError> {
        let mut rename = LocalRename::rename(&self.backend, old, new, capability);
        loop {
            let event = match &rename.step {
                RenameStep::Reserve => {
                    let name = reservation_name(new);
                    if self.disk.contains_key(&name) {
                        RenameEvent::Failed(taken())
                    } else {
                        self.disk.insert(name, vec![]);
                        RenameEvent::Done
                    }
                }
                RenameStep::StatSource => {
                    if self.disk.contains_key(&rename.source_name()) {
                        RenameEvent::Found(true)
                    } else {
                        RenameEvent::Failed(missing())
                    }
                }
                RenameStep::Link => {
                    let bytes = self.disk[&rename.source_name()].clone();
                    if self.disk.contains_key(&rename.target_name()) {
                        RenameEvent::Failed(taken())
                    } else {
                        self.disk.insert(rename.target_name(), bytes);
                        RenameEvent::Done
                    }
                }
                RenameStep::RemoveSource => {
                    self.disk.remove(&rename.source_name());
                    RenameEvent::Done
                }
                RenameStep::RemoveTarget { .. } => {
                    self.disk.remove(&rename.target_name());
                    RenameEvent::Done
                }
                RenameStep::Release { .. } => {
                    self.disk.remove(&reservation_name(new));
                    RenameEvent::Done
                }
                RenameStep::Finished { .. } => break,
            };
            rename = rename.step(&mut self.backend, event);
        }
        match rename.step {
            RenameStep::Finished { result } => result,
            _ => unreachable!(),
        }
    }

    fn concat(
        &mut self,
        target: &str,
        filename: &str,
        parts: &[&str],
        capability: Option<&str>,
    ) -> Result<(), StorageError> {
        let parts = parts.iter().map(|p| p.to_string()).collect();
        let write = LocalWrite::concat(
            &self.backend,
            target,
            filename,
            parts,
            capability.map(|c| c.to_owned()),
        );
        self.run(write, vec![]).map(|_| ())
    }

    fn restart(&mut self) {
        let entries: Vec<DirEntry> = self
            .disk
            .keys()
            .map(|name| DirEntry {
                name: name.clone(),
                kind: EntryKind::File,
            })
            .collect();
        self.backend = LocalBackend::new(Ok(true), 0).unwrap();
        let (stale, result) = self.backend.init_cache(&entries);
        result.unwrap();
        for name in stale {
            self.disk.remove(&name);
        }
    }

    /// Runs an upload whose body comes in the given chunks.
    fn upload(
        &mut self,
        mut upload: Upload,
        fields: Vec<FieldRead>,
        body: Vec<Vec<u8>>,
    ) -> Result<Reply, JuicehostError> {
        let mut fields = fields.into_iter();
        let mut body = body.into_iter();
        loop {
            let event = match &upload.step {
                StoreStep::ParseClaims { claims } => StoreEvent::Claims(parse_claims(claims)),
                StoreStep::Permit => StoreEvent::Permit(self.permits),
                StoreStep::ReadForm { .. } => match fields.next() {
                    Some(read) => StoreEvent::Field(read),
                    None => StoreEvent::End,
                },
                StoreStep::Sniff { .. } => match body.next() {
                    Some(chunk) => StoreEvent::Chunk(Ok(chunk)),
                    None => StoreEvent::End,
                },
                StoreStep::Validate { data, .. } => {
                    StoreEvent::Validated(validate(&upload.filename, data))
                }
                StoreStep::Store { name, data, tail } => {
                    let mut all = vec![data.clone()];
                    if let Some(tail) = tail {
                        all.push(tail.clone());
                    }
                    all.extend(body.by_ref());
                    let mut chunks = vec![];
                    let mut sized = upload.sized_stream();
                    let mut broken = false;
                    for chunk in all {
                        match sized.chunk(chunk.len() as u64) {
                            Ok(next) => {
                                sized = next;
                                chunks.push(Ok(chunk));
                            }
                            Err(e) => {
                                chunks.push(Err(e));
                                broken = true;
                                break;
                            }
                        }
                    }
                    if !broken {
                        if let Err(e) = sized.finish() {
                            chunks.push(Err(e));
                        }
                    }
                    let write =
                        LocalWrite::put_stream(&upload.id, name, upload.capability.clone());
                    StoreEvent::Stored(self.run(write, chunks).map(|_| ()))
                }
                StoreStep::Finished { .. } => break,
            };
            upload = upload.step(event);
        }
        match upload.step {
            StoreStep::Finished { result } => result,
            _ => unreachable!(),
        }
    }

    fn stream(
        &mut self,
        id: &str,
        filename: &str,
        headers: Headers,
        body: &[u8],
    ) -> Result<Reply, JuicehostError> {
        require_api_key(&headers, &self.state.api_key, &self.state.allowed_origins)?;
        let upload =
            store_file_streaming(id, filename, headers, self.state.max_file_size_bytes);
        self.upload(upload, vec![], vec![body.to_vec()])
    }

    fn form(&mut self, headers: Headers, fields: Vec<FieldRead>) -> Result<Reply, JuicehostError> {
        require_api_key(&headers, &self.state.api_key, &self.state.allowed_origins)?;
        let upload = store_file(headers, self.state.max_file_size_bytes);
        self.upload(upload, fields, vec![])
    }

    fn ticket(
        &mut self,
        id: &str,
        headers: Headers,
        token: Option<&str>,
        body: &[u8],
    ) -> Result<Reply, JuicehostError> {
        let secret = self.state.ticket_jwt_secret.clone();
        require_api_key_or_ticket(&headers, &self.state.api_key, token, &secret)?;
        let upload = store_file_ticket(
            id,
            headers,
            token,
            &secret,
            self.state.max_file_size_bytes,
        );
        self.upload(upload, vec![], vec![body.to_vec()])
    }

    /// Answers a request for a file: the reply and the bytes that come with it.
    fn serve(&mut self, path: &str, headers: Headers) -> (Result<Reply, JuicehostError>, Vec<u8>) {
        self.serve_with(path, headers, vec![])
    }

    fn serve_with(
        &mut self,
        path: &str,
        headers: Headers,
        probes: Vec<Option<JsonPayload>>,
    ) -> (Result<Reply, JuicehostError>, Vec<u8>) {
        let mut probes = probes.into_iter();
        let mut serve = serve_file_wildcard(
            path,
            &headers,
            self.state.backend_url.as_deref(),
            self.state.max_range_response_bytes,
        );
        let mut body: Vec<u8> = vec![];
        loop {
            let event = match &serve.step {
                ServeStep::Stat => ServeEvent::Stat(self.stat(&serve.id)),
                ServeStep::ProbeStatus | ServeStep::ProbeAlias => {
                    ServeEvent::Probe(probes.next().unwrap())
                }
                ServeStep::Permit { .. } => ServeEvent::Permit(self.permits),
                ServeStep::OpenRange { meta, start, end } => {
                    let opened = self
                        .backend
                        .get_range_stream(&serve.id, meta.size, *start, *end)
                        .map(|name| {
                            let file = &self.disk[&name];
                            let mut read = RangeRead::new(*start, *end);
                            let mut at = *start as usize;
                            while read.next_len() > 0 {
                                let n = read.next_len() as usize;
                                body.extend_from_slice(&file[at..at + n]);
                                at += n;
                                let (next, item) = read.step(Ok(n));
                                assert_eq!(item, StreamItem::Chunk);
                                read = next;
                            }
                        });
                    ServeEvent::Opened(opened)
                }
                ServeStep::OpenWhole { .. } => {
                    ServeEvent::Opened(match self.backend.resolve_path(&serve.id) {
                        Some(name) => {
                            body = self.disk[&name].clone();
                            Ok(())
                        }
                        None => Err(StorageError::NotFound),
                    })
                }
                ServeStep::Finished { .. } => break,
            };
            serve = serve.step(event);
        }
        match serve.step {
            ServeStep::Finished { result } => (result, body),
            _ => unreachable!(),
        }
    }

    fn join(
        &mut self,
        headers: Headers,
        payload: &JsonPayload,
    ) -> Result<Reply, JuicehostError> {
        require_api_key(&headers, &self.state.api_key, &self.state.allowed_origins)?;
        let mut concat = concat_files(
            payload,
            headers,
            &self.state.api_key,
            self.state.max_concat_parts,
            self.state.max_file_size_bytes,
        )?;
        loop {
            let event = match &concat.step {
                ConcatStep::Stat { index, .. } => {
                    let part = concat.parts[*index].clone();
                    ConcatEvent::Stat(self.stat(&part).map(|meta| meta.size))
                }
                ConcatStep::Permit => ConcatEvent::Permit(self.permits),
                ConcatStep::Store { capability } => {
                    let parts: Vec<&str> = concat.parts.iter().map(|p| p.as_str()).collect();
                    ConcatEvent::Stored(self.concat(
                        &concat.target_id,
                        &concat.filename,
                        &parts,
                        capability.as_deref(),
                    ))
                }
                ConcatStep::Finished { .. } => break,
            };
            concat = concat.step(event);
        }
        match concat.step {
            ConcatStep::Finished { result } => result,
            _ => unreachable!(),
        }
    }

    fn remove(&mut self, id: &str, headers: Headers) -> Result<Reply, JuicehostError> {
        require_api_key(&headers, &self.state.api_key, &self.state.allowed_origins)?;
        let capability =
            juicehost::handlers::manage::delete_file(&headers, &self.state.api_key)?;
        delete_done(self.delete(id, capability.as_deref()))
    }

    fn change_id(
        &mut self,
        id: &str,
        headers: Headers,
        payload: &JsonPayload,
    ) -> Result<Reply, JuicehostError> {
        require_api_key(&headers, &self.state.api_key, &self.state.allowed_origins)?;
        let plan =
            juicehost::handlers::manage::rename_file(payload, &headers, &self.state.api_key)?;
        let outcome = self.rename(id, &plan.new_id, plan.capability.as_deref());
        rename_done(id, &plan.new_id, outcome)
    }
}

/// The members of a JSON object, in their order, each as it is written.
struct Members {
    list: Vec<(String, Box<serde_json::value::RawValue>)>,
}

struct MembersVisitor;

impl<'de> serde::de::Visitor<'de> for MembersVisitor {
    type Value = Members;

    fn expecting(&self, formatter: &mut std::fmt::Formatter<'_>) -> std::fmt::Result {
        formatter.write_str("an object")
    }

    fn visit_map<A: serde::de::MapAccess<'de>>(self, mut map: A) -> Result<Members, A::Error> {
        let mut list = vec![];
        while let Some(member) = map.next_entry::<String, Box<serde_json::value::RawValue>>()? {
            list.push(member);
        }
        Ok(Members { list })
    }
}

impl<'de> serde::Deserialize<'de> for Members {
    fn deserialize<D: serde::Deserializer<'de>>(deserializer: D) -> Result<Members, D::Error> {
        deserializer.deserialize_map(MembersVisitor)
    }
}

impl Members {
    /// How the member of that name is written, `null` where there is none. `None` where there are
    /// several.
    fn only(&self, name: &str) -> Option<&str> {
        let mut found = self.list.iter().filter(|(n, _)| n == name);
        let value = found.next().map(|(_, value)| value.get());
        match found.next() {
            Some(_) => None,
            None => Some(value.unwrap_or("null")),
        }
    }
}

fn parse_claims(claims: &str) -> Option<TicketClaims> {
    let members: Members = serde_json::from_str(claims).ok()?;
    Some(TicketClaims {
        sub: serde_json::from_str(members.only("sub")?).ok()?,
        file_id: serde_json::from_str(members.only("file_id")?).ok()?,
        filename: serde_json::from_str(members.only("filename")?).ok()?,
        file_size: serde_json::from_str(members.only("file_size")?).ok()?,
        file_capability: serde_json::from_str(members.only("file_capability")?).ok()?,
    })
}

fn now() -> u64 {
    std::time::SystemTime::now()
        .duration_since(std::time::UNIX_EPOCH)
        .unwrap()
        .as_secs()
}

fn token(claims: &[(&str, serde_json::Value)], secret: &str) -> String {
    let mut map = serde_json::Map::new();
    for (name, value) in claims {
        map.insert(name.to_string(), value.clone());
    }
    jsonwebtoken::encode(
        &jsonwebtoken::Header::default(),
        &serde_json::Value::Object(map),
        &jsonwebtoken::EncodingKey::from_secret(secret.as_bytes()),
    )
    .unwrap()
}

/// A token over claims as they are written.
fn written_token(claims: String, secret: &str) -> String {
    let claims = serde_json::value::RawValue::from_string(claims).unwrap();
    jsonwebtoken::encode(
        &jsonwebtoken::Header::default(),
        &claims,
        &jsonwebtoken::EncodingKey::from_secret(secret.as_bytes()),
    )
    .unwrap()
}

fn word(s: &str) -> serde_json::Value {
    serde_json::Value::String(s.to_owned())
}

fn ticket(file_id: &str, filename: &str, file_size: u64) -> String {
    token(
        &[
            ("sub", word("dev-1")),
            ("user_id", word("user-1")),
            ("iss", word("juiceback-ticket")),
            ("file_id", word(file_id)),
            ("filename", word(filename)),
            ("mime_type", word("text/plain")),
            ("file_size", serde_json::Value::from(file_size)),
            ("iat", serde_json::Value::from(now())),
            ("exp", serde_json::Value::from(now() + 300)),
        ],
        "test-ticket-secret",
    )
}

fn header_of<'a>(reply: &'a Reply, name: &str) -> Option<&'a str> {
    reply
        .headers
        .iter()
        .find(|(n, _)| *n == name)
        .map(|(_, v)| v.as_str())
}

fn object(reply: &Reply) -> &JsonObject {
    match &reply.body {
        ReplyBody::Json(object) => object,
        _ => panic!("no JSON"),
    }
}

fn field<'a>(object: &'a JsonObject, name: &str) -> Option<&'a JsonValue> {
    object
        .fields
        .iter()
        .find(|(n, _)| n == name)
        .map(|(_, v)| v)
}

fn status(result: &Result<Reply, JuicehostError>) -> u16 {
    match result {
        Ok(reply) => reply.status,
        Err(e) => e.status(),
    }
}

// Local storage

#[test]
fn local_put_and_get() {
    let mut host = local();
    host.put("file1", "test.txt", b"hello").unwrap();
    let data = host.get("file1").unwrap();
    assert_eq!(data.data, b"hello");
    assert_eq!(data.meta.extension, "txt");
}

#[test]
fn local_put_does_not_overwrite_existing_file() {
    let mut host = local();
    host.put("file1", "test.txt", b"first").unwrap();
    assert!(matches!(
        host.put("file1", "test.txt", b"second"),
        Err(StorageError::Conflict)
    ));
    assert_eq!(host.get("file1").unwrap().data, b"first");
}

#[test]
fn local_logical_id_is_unique_across_extensions() {
    let mut host = local();
    host.put("same", "first.txt", b"first").unwrap();
    assert!(matches!(
        host.put("same", "second.png", b"second"),
        Err(StorageError::Conflict)
    ));
    assert_eq!(host.stat("same").unwrap().extension, "txt");
}

#[test]
fn local_logical_id_reservation_is_atomic_across_extensions() {
    let mut host = local();
    // The first writer holds the reservation while the second one asks for it.
    let mut first = LocalWrite::put_stream("raced", "first.txt", None);
    let event = host.create(reservation_name("raced"));
    first = first.step(&mut host.backend, event);
    assert!(matches!(
        host.put("raced", "second.png", b"data"),
        Err(StorageError::Conflict)
    ));
    assert_eq!(first.step, WriteStep::CheckSpace);
    host.disk.insert("raced.txt".to_owned(), b"data".to_vec());
    for event in [
        WriteEvent::Space(1),
        WriteEvent::Done,
        WriteEvent::Chunk(4),
        WriteEvent::Done,
        WriteEvent::End,
        WriteEvent::Done,
        WriteEvent::Done,
        WriteEvent::Done,
    ] {
        first = first.step(&mut host.backend, event);
    }
    assert_eq!(first.step, WriteStep::Finished { result: Ok(4) });
    host.disk.remove(&reservation_name("raced"));
    assert!(matches!(
        host.put("raced", "second.png", b"data"),
        Err(StorageError::Conflict)
    ));
}

#[test]
fn local_cache_rejects_symlink_entries() {
    let mut backend = LocalBackend::new(Ok(true), 0).unwrap();
    let entries = vec![DirEntry {
        name: "linked.txt".to_owned(),
        kind: EntryKind::Symlink,
    }];
    let (stale, result) = backend.init_cache(&entries);
    assert!(stale.is_empty());
    assert_eq!(
        result,
        Err("storage entry is not a regular file: linked.txt".to_owned())
    );
}

#[test]
fn local_stream_failure_removes_partial_file() {
    let mut host = local();
    let write = LocalWrite::put_stream("broken", "file.txt", None);
    let result = host.run(
        write,
        vec![
            Ok(b"partial".to_vec()),
            Err(StorageError::Io(IoFailure::Message("request failed".to_owned()))),
        ],
    );
    assert!(result.is_err());
    assert!(host.stat("broken").is_err());
    assert!(host.disk.is_empty());
}

#[test]
fn local_stream_does_not_overwrite_existing_file() {
    let mut host = local();
    host.put("file1", "test.txt", b"first").unwrap();
    let write = LocalWrite::put_stream("file1", "test.txt", None);
    assert!(matches!(
        host.run(write, vec![Ok(b"second".to_vec())]),
        Err(StorageError::Conflict)
    ));
    assert_eq!(host.get("file1").unwrap().data, b"first");
}

#[test]
fn local_delete() {
    let mut host = local();
    host.put("d1", "f.bin", b"data").unwrap();
    assert!(host.delete("d1", None).unwrap());
    assert!(host.get("d1").is_err());
    assert!(host.disk.is_empty());
}

#[test]
fn local_delete_not_found() {
    let mut host = local();
    assert!(!host.delete("nonexistent", None).unwrap());
}

#[test]
fn local_rename() {
    let mut host = local();
    host.put("old", "f.txt", b"content").unwrap();
    host.rename("old", "new", None).unwrap();
    assert!(host.get("old").is_err());
    assert_eq!(host.get("new").unwrap().data, b"content");
    assert_eq!(host.disk.len(), 1);
}

#[test]
fn local_rename_not_found() {
    let mut host = local();
    assert_eq!(host.rename("missing", "new", None), Err(StorageError::NotFound));
    assert!(host.disk.is_empty());
}

#[test]
fn local_rename_keeps_an_existing_target() {
    let mut host = local();
    host.put("a", "a.txt", b"a").unwrap();
    host.put("b", "b.png", b"b").unwrap();
    assert_eq!(host.rename("a", "b", None), Err(StorageError::Conflict));
    assert_eq!(
        host.rename("a", "b/c", None),
        Err(StorageError::Io(IoFailure::InvalidLogicalId))
    );
    assert_eq!(host.get("a").unwrap().data, b"a");
    assert_eq!(host.get("b").unwrap().data, b"b");
}

#[test]
fn local_rename_cleans_up_where_the_old_file_stays() {
    let mut host = local();
    host.put("old", "f.txt", b"content").unwrap();
    let mut rename = LocalRename::rename(&host.backend, "old", "new", None);
    for event in [
        RenameEvent::Done,
        RenameEvent::Found(true),
        RenameEvent::Done,
        RenameEvent::Failed(IoError::Other("denied".to_owned())),
    ] {
        rename = rename.step(&mut host.backend, event);
    }
    assert!(matches!(rename.step, RenameStep::RemoveTarget { .. }));
    rename = rename.step(&mut host.backend, RenameEvent::Done);
    rename = rename.step(&mut host.backend, RenameEvent::Done);
    assert_eq!(
        rename.step,
        RenameStep::Finished {
            result: Err(StorageError::Io(IoFailure::Failed(
                Step::RenameCleanup,
                "denied".to_owned()
            )))
        }
    );
    assert!(host.backend.contains("old"));
    assert!(!host.backend.contains("new"));
}

#[test]
fn local_rename_of_something_else_than_a_file_fails() {
    let mut host = local();
    host.put("old", "f.txt", b"content").unwrap();
    let mut rename = LocalRename::rename(&host.backend, "old", "new", None);
    for event in [RenameEvent::Done, RenameEvent::Found(false), RenameEvent::Done] {
        rename = rename.step(&mut host.backend, event);
    }
    assert_eq!(
        rename.step,
        RenameStep::Finished {
            result: Err(StorageError::Io(IoFailure::RenameSourceNotRegular))
        }
    );
}

#[test]
fn local_get_not_found() {
    let mut host = local();
    assert!(host.get("nope").is_err());
}

#[test]
fn local_concat() {
    let mut host = local();
    host.put("p1", "a.txt", b"hello").unwrap();
    host.put("p2", "b.txt", b" world").unwrap();
    host.concat("merged", "merged.txt", &["p1", "p2"], None).unwrap();
    assert_eq!(host.get("merged").unwrap().data, b"hello world");
    assert!(host.get("p1").is_err());
    assert!(host.get("p2").is_err());
    assert_eq!(host.disk.len(), 1);
}

#[test]
fn local_concat_with_a_missing_part_changes_nothing() {
    let mut host = local();
    host.put("p1", "a.txt", b"hello").unwrap();
    assert_eq!(
        host.concat("merged", "merged.txt", &["p1", "p2"], None),
        Err(StorageError::NotFound)
    );
    assert_eq!(host.disk.len(), 1);
    assert_eq!(host.get("p1").unwrap().data, b"hello");
    assert!(!host.backend.contains("merged"));
}

#[test]
fn local_put_stores_file() {
    let mut host = local();
    host.put("deep-id", "file.txt", b"data").unwrap();
    assert_eq!(host.get("deep-id").unwrap().data, b"data");
}

#[test]
fn local_storage_metrics() {
    let metrics = LocalBackend::storage_metrics(Some(1000), Some(400), 0);
    assert!(metrics.total_bytes > 0);
    assert_eq!(metrics.used_bytes, 600);
    assert!(!metrics.out_of_space);
    let metrics = LocalBackend::storage_metrics(None, None, 1);
    assert_eq!(metrics.total_bytes, 0);
    assert!(metrics.out_of_space);
    let metrics = LocalBackend::storage_metrics(Some(1), Some(2), 2);
    assert_eq!(metrics.used_bytes, 0);
    assert!(!metrics.out_of_space);
}

#[test]
fn local_cache_init() {
    let mut backend = LocalBackend::new(Ok(true), 0).unwrap();
    let entries = vec![DirEntry {
        name: "abc.txt".to_owned(),
        kind: EntryKind::File,
    }];
    let (stale, result) = backend.init_cache(&entries);
    assert!(stale.is_empty());
    result.unwrap();
    assert_eq!(backend.extension("abc"), Some("txt".to_owned()));
}

#[test]
fn local_cache_init_rejects_bad_directories() {
    let entry = |name: &str, kind: EntryKind| DirEntry {
        name: name.to_owned(),
        kind,
    };
    let scan = |entries: Vec<DirEntry>| {
        let mut backend = LocalBackend::new(Ok(true), 0).unwrap();
        backend.init_cache(&entries)
    };
    assert_eq!(
        scan(vec![entry("a b.txt", EntryKind::File)]).1,
        Err("invalid storage entry name: a b.txt".to_owned())
    );
    assert_eq!(
        scan(vec![entry("sub", EntryKind::Other)]).1,
        Err("storage entry is not a regular file: sub".to_owned())
    );
    let (stale, result) = scan(vec![
        entry(".x.reserve", EntryKind::File),
        entry("a.txt", EntryKind::File),
        entry("a.png", EntryKind::File),
        entry(".y.1.2.tmp", EntryKind::File),
    ]);
    assert_eq!(stale, vec![".x.reserve".to_owned()]);
    assert_eq!(result, Err("duplicate logical file ID: a".to_owned()));
    let (stale, result) = scan(vec![
        entry(".x.1.2.tmp", EntryKind::Other),
        entry("noext", EntryKind::File),
    ]);
    assert!(stale.is_empty());
    assert_eq!(result, Ok(()));
    assert!(LocalBackend::new(Ok(false), 0).is_err());
    assert!(LocalBackend::new(Err("gone".to_owned()), 0).is_err());
}

#[test]
fn local_restart_rebuilds_the_index_and_drops_leftovers() {
    let mut host = local();
    host.put("one", "a.TXT", b"1").unwrap();
    host.put("two", "b", b"2").unwrap();
    host.disk.insert(reservation_name("three"), vec![]);
    host.disk.insert(temp_name("three", 1, 2), vec![9]);
    host.restart();
    assert_eq!(host.disk.len(), 2);
    assert_eq!(host.get("one").unwrap().meta.extension, "txt");
    assert_eq!(host.get("two").unwrap().meta.extension, "bin");
}

#[test]
fn local_write_reports_each_failure() {
    fn after(events: Vec<WriteEvent>) -> WriteStep {
        let mut backend = LocalBackend::new(Ok(true), 100).unwrap();
        let mut write = LocalWrite::put_stream("x", "a.txt", None);
        for event in events {
            write = write.step(&mut backend, event);
        }
        write.step
    }
    fn failed(e: StorageError) -> WriteStep {
        WriteStep::Finished { result: Err(e) }
    }
    let other = || IoError::Other("e".to_owned());
    let io = |step: Step| StorageError::Io(IoFailure::Failed(step, "e".to_owned()));
    assert_eq!(after(vec![WriteEvent::Failed(other())]), failed(io(Step::ReserveId)));
    assert_eq!(
        after(vec![WriteEvent::Done, WriteEvent::Space(99), WriteEvent::Done]),
        failed(StorageError::InsufficientStorage)
    );
    assert_eq!(
        after(vec![WriteEvent::Done, WriteEvent::Failed(other()), WriteEvent::Done]),
        failed(io(Step::DiskCheck))
    );
    assert_eq!(
        after(vec![
            WriteEvent::Done,
            WriteEvent::Space(100),
            WriteEvent::Failed(taken()),
            WriteEvent::Done,
            WriteEvent::Done,
        ]),
        failed(StorageError::Conflict)
    );
    assert_eq!(
        after(vec![
            WriteEvent::Done,
            WriteEvent::Space(100),
            WriteEvent::Done,
            WriteEvent::Chunk(1),
            WriteEvent::Failed(other()),
            WriteEvent::Done,
            WriteEvent::Done,
        ]),
        failed(io(Step::Write))
    );
    assert_eq!(
        after(vec![
            WriteEvent::Done,
            WriteEvent::Space(100),
            WriteEvent::Done,
            WriteEvent::End,
            WriteEvent::Failed(other()),
            WriteEvent::Done,
            WriteEvent::Done,
        ]),
        failed(io(Step::Flush))
    );
    assert_eq!(
        after(vec![
            WriteEvent::Done,
            WriteEvent::Space(100),
            WriteEvent::Done,
            WriteEvent::End,
            WriteEvent::Done,
            WriteEvent::Failed(other()),
            WriteEvent::Done,
            WriteEvent::Done,
        ]),
        failed(io(Step::Publish))
    );
    let write = LocalWrite::put_stream("a b", "a.txt", None);
    assert_eq!(write.step, failed(StorageError::Io(IoFailure::InvalidStoragePath)));
}

#[test]
fn local_etag_and_cache() {
    let mut host = local();
    host.put("e", "a.txt", b"12345").unwrap();
    let meta = host.stat("e").unwrap();
    assert_eq!(meta.etag, "\"7-3e8-5\"");
    assert_eq!(meta.size, 5);
    assert!(matches!(host.backend.stat("e"), StatPlan::Cached(_)));
    assert!(matches!(host.backend.stat("nope"), StatPlan::Missing));
    let before = FileStat {
        regular: true,
        len: 16,
        inode: 255,
        modified: -1,
    };
    assert_eq!(
        juicehost::storage::local::etag_from_metadata(&before),
        "\"ff-ffffffffffffffff-10\""
    );
}

#[test]
fn local_stat_rejects_what_is_no_file() {
    let mut host = local();
    host.put("e", "a.txt", b"12345").unwrap();
    let mut stat = host.stat_of("e.txt");
    stat.regular = false;
    assert_eq!(
        host.backend.stat_found("e", "e.txt", Ok(stat)),
        Err(StorageError::Io(IoFailure::NotRegular))
    );
    assert_eq!(
        host.backend.stat_found("e", "e.txt", Err(missing())),
        Err(StorageError::NotFound)
    );
}

#[test]
fn opening_and_streaming() {
    assert_eq!(open_regular(OpenOutcome::Opened(true)), Ok(()));
    assert_eq!(
        open_regular(OpenOutcome::Opened(false)),
        Err(StorageError::Io(IoFailure::NotRegular))
    );
    assert_eq!(
        open_regular(OpenOutcome::Failed(missing())),
        Err(StorageError::NotFound)
    );
    assert_eq!(
        open_regular(OpenOutcome::MetadataFailed("e".to_owned())),
        Err(StorageError::Io(IoFailure::Failed(
            Step::FileMetadata,
            "e".to_owned()
        )))
    );
    assert_eq!(stream_item(Ok(0)), StreamItem::End);
    assert_eq!(stream_item(Ok(1)), StreamItem::Chunk);
    assert!(matches!(stream_item(Err("e".to_owned())), StreamItem::Failed(_)));
}

#[test]
fn range_reads_give_exactly_the_range() {
    let read = RangeRead::new(10, 10 + 65536);
    assert_eq!(read.next_len(), 65536);
    let (read, item) = read.step(Ok(65536));
    assert_eq!(item, StreamItem::Chunk);
    assert_eq!(read.next_len(), 1);
    let (read, item) = read.step(Ok(1));
    assert_eq!(item, StreamItem::Chunk);
    assert_eq!(read.next_len(), 0);
    let (read, item) = RangeRead::new(0, 9).step(Ok(0));
    assert_eq!(
        item,
        StreamItem::Failed(StorageError::Io(IoFailure::UnexpectedEof))
    );
    assert_eq!(read.next_len(), 0);
    let backend = LocalBackend::new(Ok(true), 0).unwrap();
    assert_eq!(
        backend.get_range_stream("x", 10, 0, 5),
        Err(StorageError::NotFound)
    );
    let mut host = local();
    host.put("x", "a.txt", b"0123456789").unwrap();
    assert_eq!(
        host.backend.get_range_stream("x", 10, 2, 10),
        Err(StorageError::Io(IoFailure::OutOfBounds(2, 10, 10)))
    );
    assert_eq!(
        host.backend.get_range_stream("x", 10, 2, 9),
        Ok("x.txt".to_owned())
    );
}

// Requests

#[test]
fn health_endpoint() {
    assert_eq!(health(&headers(&[]), None), None);
    let reply = health_reply("1.0.0", None);
    assert_eq!(reply.status, 200);
    assert_eq!(
        field(object(&reply), "status"),
        Some(&JsonValue::Text("ok".to_owned()))
    );
    assert_eq!(field(object(&reply), "juiceback"), None);
}

#[test]
fn health_asks_the_backend_once() {
    assert_eq!(
        health(&headers(&[]), Some("http://back//")),
        Some("http://back/api/health".to_owned())
    );
    assert_eq!(
        health(&headers(&[("x-health-probe", "1")]), Some("http://back")),
        None
    );
    assert!(check_backend_health(Some(payload(vec![("status", text("ok"))]))));
    assert!(!check_backend_health(Some(payload(vec![("status", text("no"))]))));
    assert!(!check_backend_health(Some(payload(vec![]))));
    assert!(!check_backend_health(None));
    let reply = health_reply("1.0.0", Some(false));
    assert_eq!(
        field(object(&reply), "juiceback"),
        Some(&JsonValue::Text("unreachable".to_owned()))
    );
}

#[test]
fn store_and_serve() {
    let mut host = local();
    let reply = host.form(
        with_key(),
        vec![
            FieldRead::Id("my-file".to_owned()),
            FieldRead::Filename("test.txt".to_owned()),
            FieldRead::File(b"hello world".to_vec()),
        ],
    );
    assert_eq!(status(&reply), 200);
    host.restart();
    let (reply, body) = host.serve("my-file", headers(&[]));
    assert_eq!(status(&reply), 200);
    assert_eq!(body, b"hello world");
    let (reply, body) = host.serve("my-file.whatever.txt", headers(&[]));
    assert_eq!(status(&reply), 200);
    assert_eq!(body, b"hello world");
}

#[test]
fn forms_need_their_fields() {
    let mut host = local();
    let id = || FieldRead::Id("x".to_owned());
    let name = || FieldRead::Filename("f.txt".to_owned());
    let file = || FieldRead::File(b"data".to_vec());
    assert_eq!(status(&host.form(with_key(), vec![name(), file()])), 400);
    assert_eq!(status(&host.form(with_key(), vec![id(), file()])), 400);
    assert_eq!(status(&host.form(with_key(), vec![id(), name()])), 400);
    assert_eq!(
        status(&host.form(with_key(), vec![FieldRead::Id("a b".to_owned()), name(), file()])),
        400
    );
    assert_eq!(
        status(&host.form(with_key(), vec![id(), FieldRead::Unreadable])),
        400
    );
    host.state.max_file_size_bytes = 3;
    assert_eq!(status(&host.form(with_key(), vec![id(), name(), file()])), 413);
    host.state.max_file_size_bytes = 4;
    assert_eq!(
        status(&host.form(with_key(), vec![FieldRead::Other, id(), name(), file()])),
        200
    );
    host.permits = false;
    assert_eq!(status(&host.form(with_key(), vec![id(), name(), file()])), 503);
    assert_eq!(field_kind("id"), FieldKind::Id);
    assert_eq!(field_kind("filename"), FieldKind::Filename);
    assert_eq!(field_kind("file"), FieldKind::File);
    assert_eq!(field_kind(""), FieldKind::Other);
}

#[test]
fn serve_not_found() {
    let mut host = local();
    let (reply, _) = host.serve("nonexistent", headers(&[]));
    let reply = reply.unwrap();
    assert_eq!(reply.status, 404);
    assert_eq!(header_of(&reply, "cache-control"), Some("no-store"));
    assert_eq!(reply.body, ReplyBody::NotFoundPage);
    assert_eq!(host.serve("a b", headers(&[])).0, Err(JuicehostError::BadRequest));
}

#[test]
fn serve_asks_the_backend_for_missing_files() {
    let mut host = local();
    host.state.backend_url = Some("http://back".to_owned());
    let serve = serve_file_wildcard("gone.txt", &headers(&[]), Some("http://back"), 1);
    assert_eq!(
        serve.status_url(),
        Some("http://back/internal/file/gone/status".to_owned())
    );
    assert_eq!(
        serve.alias_url(),
        Some("http://back/internal/alias/gone".to_owned())
    );
    let (reply, _) = host.serve_with(
        "gone",
        headers(&[]),
        vec![Some(payload(vec![
            ("status", text("uploading")),
            ("filename", text("big.iso")),
        ]))],
    );
    assert_eq!(reply.unwrap().body, ReplyBody::TeapotPage("big.iso".to_owned()));
    let (reply, _) = host.serve_with(
        "gone",
        headers(&[]),
        vec![
            Some(payload(vec![("status", text("done"))])),
            Some(payload(vec![("url", text("https://host/f/new"))])),
        ],
    );
    let reply = reply.unwrap();
    assert_eq!(reply.status, 301);
    assert_eq!(header_of(&reply, "location"), Some("https://host/f/new"));
    let (reply, _) = host.serve_with(
        "gone",
        headers(&[]),
        vec![None, Some(payload(vec![("url", text("bad\nurl"))]))],
    );
    assert_eq!(reply, Err(JuicehostError::InternalServerError));
    let (reply, _) = host.serve_with("gone", headers(&[]), vec![None, None]);
    assert_eq!(status(&reply), 404);
}

#[test]
fn index_redirects_to_frontend_url() {
    let reply = index_handler(Some("https://juicefront.example"));
    assert_eq!(reply.status, 308);
    assert_eq!(
        header_of(&reply, "location"),
        Some("https://juicefront.example")
    );
}

#[test]
fn index_404_without_frontend_url() {
    assert_eq!(index_handler(None).status, 404);
}

#[test]
fn serve_etag_304() {
    let mut host = local();
    host.put("etag1", "test.txt", b"data").unwrap();
    host.restart();
    let (reply, _) = host.serve("etag1", headers(&[]));
    let reply = reply.unwrap();
    assert_eq!(reply.status, 200);
    assert_eq!(header_of(&reply, "cache-control"), Some("no-store"));
    let etag = header_of(&reply, "etag").unwrap().to_owned();
    host.restart();
    for tag in [etag.as_str(), etag.trim_matches('"')] {
        let (reply, _) = host.serve("etag1", headers(&[("if-none-match", tag)]));
        let reply = reply.unwrap();
        assert_eq!(reply.status, 304);
        assert_eq!(header_of(&reply, "cache-control"), Some("no-store"));
    }
    let (reply, _) = host.serve("etag1", headers(&[("if-none-match", "\"x\"")]));
    assert_eq!(status(&reply), 200);
}

#[test]
fn ranges_clamp_and_return_416() {
    let mut host = local();
    host.put("range", "file.txt", b"0123456789").unwrap();
    let (reply, body) = host.serve("range", headers(&[("range", "bytes=7-99")]));
    let reply = reply.unwrap();
    assert_eq!(reply.status, 206);
    assert_eq!(header_of(&reply, "cache-control"), Some("no-store"));
    assert_eq!(header_of(&reply, "content-range"), Some("bytes 7-9/10"));
    assert_eq!(header_of(&reply, "content-length"), Some("3"));
    assert_eq!(body, b"789");
    let (reply, _) = host.serve("range", headers(&[("range", "bytes=10-")]));
    let reply = reply.unwrap();
    assert_eq!(reply.status, 416);
    assert_eq!(header_of(&reply, "cache-control"), Some("no-store"));
    assert_eq!(header_of(&reply, "content-range"), Some("bytes */10"));
    let (reply, body) = host.serve("range", headers(&[("range", "lines=1-2")]));
    assert_eq!(status(&reply), 200);
    assert_eq!(body, b"0123456789");
    host.permits = false;
    assert_eq!(
        host.serve("range", headers(&[])).0,
        Err(JuicehostError::ServiceUnavailable)
    );
}

#[test]
fn ticket_enforces_content_length_and_actual_size() {
    let mut host = host("test-api-key", "test-ticket-secret");
    let token = ticket("short", "file.txt", 5);
    let reply = host.ticket(
        "short",
        headers(&[("content-length", "4")]),
        Some(&token),
        b"data",
    );
    assert_eq!(status(&reply), 400);
    let reply = host.ticket("short", headers(&[]), Some(&token), b"data");
    assert_eq!(status(&reply), 400);
    assert!(!host.disk.contains_key("short.txt"));
    let reply = host.ticket("short", headers(&[("content-length", "x")]), Some(&token), b"12345");
    assert_eq!(reply, Err(JuicehostError::BadRequest));
    let reply = host.ticket("other", headers(&[]), Some(&token), b"12345");
    assert_eq!(reply, Err(JuicehostError::Forbidden));
    host.state.max_file_size_bytes = 4;
    let reply = host.ticket("short", headers(&[]), Some(&token), b"12345");
    assert_eq!(reply, Err(JuicehostError::PayloadTooLarge));
    host.state.max_file_size_bytes = 5;
    let reply = host.ticket("short", headers(&[]), Some(&token), b"123456");
    assert_eq!(reply, Err(JuicehostError::SizeMismatch));
    let reply = host.ticket("short", headers(&[]), Some(&token), b"12345");
    assert_eq!(status(&reply), 200);
}

#[test]
fn tickets_must_be_good() {
    let mut host = host("test-api-key", "test-ticket-secret");
    let claims = |issuer: &str, exp: u64| {
        vec![
            ("sub", word("dev-1")),
            ("iss", word(issuer)),
            ("file_id", word("x")),
            ("filename", word("f.txt")),
            ("file_size", serde_json::Value::from(4u64)),
            ("exp", serde_json::Value::from(exp)),
        ]
    };
    let secret = "test-ticket-secret";
    let late = now() + 300;
    let bad = [
        token(&claims("juiceback-ticket", late), "another-secret"),
        token(&claims("someone-else", late), secret),
        token(&claims("juiceback-ticket", now() - 3600), secret),
        token(&claims("juiceback-ticket", late)[..5], secret),
        "no.such.token".to_owned(),
        String::new(),
    ];
    for token in bad {
        assert_eq!(
            host.ticket("x", headers(&[]), Some(&token), b"data"),
            Err(JuicehostError::Forbidden)
        );
    }
    assert_eq!(
        host.ticket("x", headers(&[]), None, b"data"),
        Err(JuicehostError::Forbidden)
    );
    assert_eq!(
        host.ticket("a b", with_key(), None, b"data"),
        Err(JuicehostError::BadRequest)
    );
    let good = token(&claims("juiceback-ticket", late), secret);
    assert_eq!(status(&host.ticket("x", headers(&[]), Some(&good), b"data")), 200);
}

#[test]
fn ticket_names_each_claim_once() {
    let mut host = host("test-api-key", "test-ticket-secret");
    let claims = |more: &str| {
        let exp = now() + 300;
        let fixed = r#""sub":"dev-1","iss":"juiceback-ticket","filename":"f.txt","file_size":4"#;
        format!(r#"{{{fixed},"exp":{exp},"file_id":"x"{more}}}"#)
    };
    let twice = [
        r#","file_id":"x""#,
        r#","file_id":"y""#,
        r#","filename":"g.txt""#,
        r#","file_size":4"#,
        r#","sub":"dev-2""#,
        r#","file_capability":"a","file_capability":"b""#,
    ];
    for more in twice {
        let token = written_token(claims(more), "test-ticket-secret");
        assert_eq!(
            host.ticket("x", headers(&[]), Some(&token), b"data"),
            Err(JuicehostError::Forbidden)
        );
    }
    let token = written_token(claims(r#","other":1"#), "test-ticket-secret");
    assert_eq!(status(&host.ticket("x", headers(&[]), Some(&token), b"data")), 200);
}

#[test]
fn ticket_claims_must_be_a_value() {
    let secret = "test-ticket-secret";
    let signed = |id: &str, more: &str| {
        let exp = now() + 300;
        let fixed = r#""sub":"dev-1","iss":"juiceback-ticket","filename":"f.txt","file_size":4"#;
        written_token(format!(r#"{{{fixed},"exp":{exp},"file_id":"{id}",{more}}}"#), secret)
    };
    let deep = format!(r#""other":{}{}"#, "[".repeat(200), "]".repeat(200));
    let odd = [r#""other":1e999"#, r#""other":"\ud800""#, deep.as_str()];
    let mut host = host("test-api-key", secret);
    for more in odd {
        let token = signed("x", more);
        assert_eq!(
            host.ticket("x", headers(&[]), Some(&token), b"data"),
            Err(JuicehostError::Forbidden)
        );
    }
    // With the API key the ticket is read by the upload alone, for the claims that it needs.
    for (more, id) in odd.into_iter().zip(["x1", "x2", "x3"]) {
        let token = signed(id, more);
        assert_eq!(status(&host.ticket(id, with_key(), Some(&token), b"data")), 200);
    }
    let good = signed("x", r#""other":[1e308,"\ud83d\ude00"]"#);
    assert_eq!(status(&host.ticket("x", headers(&[]), Some(&good), b"data")), 200);
}

#[test]
fn etags_can_be_sent() {
    let stat = |inode: u64, modified: i64, len: u64| FileStat {
        regular: true,
        len,
        inode,
        modified,
    };
    for stat in [stat(0, 0, 0), stat(7, -1, 255), stat(u64::MAX, i64::MIN, u64::MAX)] {
        assert!(valid_header_value(&etag_from_metadata(&stat)));
    }
    assert_eq!(etag_from_metadata(&stat(7, -1, 255)), "\"7-ffffffffffffffff-ff\"");
}

#[test]
fn what_was_put_is_kept() {
    let mut host = local();
    let write = LocalWrite::put_stream("a", "x.PNG", None);
    assert_eq!(host.run(write, vec![Ok(b"he".to_vec()), Ok(b"llo".to_vec())]), Ok(5));
    for name in ["x.png", "y.txt", "noext"] {
        assert_eq!(host.put("a", name, b"other"), Err(StorageError::Conflict));
        let found = host.get("a").unwrap();
        assert_eq!(found.data, b"hello");
        assert_eq!((found.meta.size, found.meta.extension.as_str()), (5, "png"));
    }
    let names: Vec<&String> = host.disk.keys().collect();
    assert_eq!(names, vec!["a.png"]);
    let whole = LocalBackend::put("b", "y", None);
    assert_eq!(host.run(whole, vec![Ok(b"whole".to_vec())]), Ok(5));
    assert_eq!(host.get("b").unwrap().data, b"whole");
    assert_eq!(
        host.run(LocalBackend::put("a/b", "y", None), vec![]),
        Err(StorageError::Io(IoFailure::InvalidStoragePath))
    );
}

#[test]
fn racing_uploads_store_exactly_one_file() {
    // The bits say which of the two writes does its next step.
    for schedule in 0u32..1024 {
        let mut host = local();
        let first = LocalWrite::put_stream("a", "x.png", None);
        let second = LocalWrite::put_stream("a", "y.txt", None);
        let mut first = host.start(first, vec![Ok(b"one".to_vec())]);
        let mut second = host.start(second, vec![Ok(b"second".to_vec())]);
        let mut turn = 0;
        while !first.over() || !second.over() {
            let of_first = schedule >> (turn % 10) & 1 == 0;
            turn += 1;
            if second.over() || of_first && !first.over() {
                first = host.advance(first);
            } else {
                second = host.advance(second);
            }
        }
        let (name, data) = match (first.result(), second.result()) {
            (Ok(3), Err(StorageError::Conflict)) => ("a.png", b"one".to_vec()),
            (Err(StorageError::Conflict), Ok(6)) => ("a.txt", b"second".to_vec()),
            other => panic!("{other:?}"),
        };
        let names: Vec<&String> = host.disk.keys().collect();
        assert_eq!(names, vec![name]);
        assert_eq!(host.get("a").unwrap().data, data);
    }
}

#[test]
fn concatenation_takes_its_parts() {
    let mut host = local();
    host.put("p1", "a.txt", b"hello").unwrap();
    host.put("p2", "b.txt", b" world").unwrap();
    host.put("rest", "r.txt", b"rest").unwrap();
    assert_eq!(host.concat("m", "m.md", &["p2", "p1", "p2x"], None), Err(StorageError::NotFound));
    assert_eq!(host.disk.len(), 3);
    assert_eq!(host.concat("m", "m.md", &["p1", "p2"], None), Ok(()));
    let names: Vec<&String> = host.disk.keys().collect();
    assert_eq!(names, vec!["m.md", "rest.txt"]);
    assert_eq!(host.get("m").unwrap().data, b"hello world");
    assert_eq!(host.get("p1"), Err(StorageError::NotFound));
    assert_eq!(host.get("p2"), Err(StorageError::NotFound));
    assert_eq!(host.get("rest").unwrap().data, b"rest");
}

#[test]
fn renamed_file_keeps_its_contents() {
    let mut host = local();
    host.put("old", "a.txt", b"hello").unwrap();
    host.put("taken", "b.png", b"png").unwrap();
    assert_eq!(host.rename("old", "taken", None), Err(StorageError::Conflict));
    assert_eq!(host.get("old").unwrap().data, b"hello");
    assert_eq!(host.rename("old", "new", None), Ok(()));
    assert_eq!(host.get("new").unwrap().data, b"hello");
    assert_eq!(host.get("old"), Err(StorageError::NotFound));
    let names: Vec<&String> = host.disk.keys().collect();
    assert_eq!(names, vec!["new.txt", "taken.png"]);
    host.disk.insert(reservation_name("next"), vec![]);
    assert_eq!(host.rename("new", "next", None), Err(StorageError::Conflict));
    assert_eq!(host.get("new").unwrap().data, b"hello");
}

#[test]
fn ticket_is_not_reusable_for_an_existing_logical_id() {
    let mut host = host("test-api-key", "test-ticket-secret");
    let token = ticket("once", "file.txt", 4);
    assert_eq!(
        status(&host.ticket("once", headers(&[]), Some(&token), b"data")),
        200
    );
    assert_eq!(
        status(&host.ticket("once", headers(&[]), Some(&token), b"data")),
        409
    );
}

#[test]
fn concat_rejects_invalid_and_duplicate_parts() {
    let mut host = local();
    for parts in [list(&["ok", "bad/id"]), list(&["same", "same"])] {
        let request = payload(vec![
            ("target_id", text("target")),
            ("filename", text("x.txt")),
            ("parts", parts),
        ]);
        assert_eq!(status(&host.join(with_key(), &request)), 400);
    }
    for request in [
        payload(vec![("parts", list(&["a"]))]),
        payload(vec![("target_id", text("t"))]),
        payload(vec![("target_id", text("t")), ("parts", list(&[]))]),
        payload(vec![("target_id", text("t")), ("parts", list(&["t"]))]),
        payload(vec![("target_id", text("t t")), ("parts", list(&["a"]))]),
        payload(vec![
            ("target_id", text("t")),
            ("parts", JsonField::List(vec![Some("a".to_owned()), None])),
        ]),
    ] {
        assert_eq!(host.join(with_key(), &request), Err(JuicehostError::BadRequest));
    }
    let request = payload(vec![
        ("target_id", text("target")),
        ("parts", list(&["nope"])),
    ]);
    assert_eq!(host.join(with_key(), &request), Err(JuicehostError::NotFound));
    host.put("a", "a.txt", b"123").unwrap();
    host.put("b", "b.txt", b"456").unwrap();
    let request = payload(vec![
        ("target_id", text("target")),
        ("parts", list(&["a", "b"])),
    ]);
    host.state.max_concat_parts = 1;
    assert_eq!(host.join(with_key(), &request), Err(JuicehostError::BadRequest));
    host.state.max_concat_parts = 2;
    host.state.max_file_size_bytes = 5;
    assert_eq!(
        host.join(with_key(), &request),
        Err(JuicehostError::PayloadTooLarge)
    );
    host.state.max_file_size_bytes = 6;
    assert_eq!(status(&host.join(with_key(), &request)), 200);
    assert_eq!(host.get("target").unwrap().data, b"123456");
    assert_eq!(host.get("target").unwrap().meta.extension, "bin");
}

#[test]
fn delete_file() {
    let mut host = local();
    let reply = host.form(
        with_key(),
        vec![
            FieldRead::Id("del-me".to_owned()),
            FieldRead::Filename("f.txt".to_owned()),
            FieldRead::File(b"data".to_vec()),
        ],
    );
    assert_eq!(status(&reply), 200);
    host.restart();
    assert_eq!(status(&host.remove("del-me", with_key())), 204);
    assert_eq!(status(&host.remove("del-me", with_key())), 404);
}

#[test]
fn rename_file() {
    let mut host = local();
    let reply = host.form(
        with_key(),
        vec![
            FieldRead::Id("old-id".to_owned()),
            FieldRead::Filename("f.txt".to_owned()),
            FieldRead::File(b"content".to_vec()),
        ],
    );
    assert_eq!(status(&reply), 200);
    host.restart();
    let reply = host.change_id(
        "old-id",
        with_key(),
        &payload(vec![("new_id", text("new-id"))]),
    );
    assert_eq!(status(&reply), 200);
    let reply = reply.unwrap();
    assert_eq!(
        field(object(&reply), "new_id"),
        Some(&JsonValue::Text("new-id".to_owned()))
    );
    assert_eq!(
        host.change_id("new-id", with_key(), &payload(vec![])),
        Err(JuicehostError::BadRequest)
    );
    assert_eq!(
        host.change_id("new-id", with_key(), &payload(vec![("new_id", text("a b"))])),
        Err(JuicehostError::BadRequest)
    );
    assert_eq!(
        host.change_id("gone", with_key(), &payload(vec![("new_id", text("x"))])),
        Err(JuicehostError::NotFound)
    );
}

#[test]
fn api_key_required() {
    let mut host = local();
    let reply = host.form(
        headers(&[]),
        vec![
            FieldRead::Id("x".to_owned()),
            FieldRead::Filename("f.txt".to_owned()),
            FieldRead::File(b"data".to_vec()),
        ],
    );
    assert_eq!(status(&reply), 403);
}

#[test]
fn invalid_api_key() {
    let mut host = local();
    let reply = host.form(
        headers(&[("x-juicehost-api-key", "wrong-key")]),
        vec![
            FieldRead::Id("x".to_owned()),
            FieldRead::Filename("f.txt".to_owned()),
            FieldRead::File(b"data".to_vec()),
        ],
    );
    assert_eq!(status(&reply), 403);
}

#[test]
fn origins_are_checked_with_the_key() {
    let origins = vec!["https://back".to_owned()];
    let key = ("x-juicehost-api-key", "k");
    assert_eq!(
        require_api_key(&headers(&[key]), "k", &origins),
        Err(JuicehostError::Forbidden)
    );
    assert_eq!(
        require_api_key(&headers(&[key, ("x-juiceback-origin", "https://back")]), "k", &origins),
        Ok(())
    );
    assert_eq!(
        require_api_key(&headers(&[("x-juicehost-file-capability", "c")]), "k", &origins),
        Ok(())
    );
    assert_eq!(require_api_key(&headers(&[]), "", &origins), Ok(()));
    assert_eq!(pass_api_key_or_ticket(&headers(&[key]), "k", false), Ok(()));
    assert_eq!(pass_api_key_or_ticket(&headers(&[]), "k", true), Ok(()));
    assert_eq!(
        pass_api_key_or_ticket(&headers(&[("x-juicehost-api-key", "")]), "", false),
        Err(JuicehostError::Forbidden)
    );
}

#[test]
fn storage_endpoint() {
    let metrics = LocalBackend::storage_metrics(Some(10), Some(4), 5);
    let reply = storage_handler(&metrics);
    assert_eq!(reply.status, 200);
    assert_eq!(
        field(object(&reply), "used_bytes"),
        Some(&JsonValue::Number(6))
    );
    assert_eq!(
        field(object(&reply), "out_of_space"),
        Some(&JsonValue::Flag(true))
    );
}

#[test]
fn config_tells_what_is_offered() {
    let reply = config_handler(&state("k", "secret"));
    let object = object(&reply);
    assert_eq!(field(object, "danger_level"), Some(&JsonValue::Text("high".to_owned())));
    assert_eq!(field(object, "ultrafast"), Some(&JsonValue::Flag(true)));
    assert_eq!(
        field(object, "default_ttl_hours"),
        Some(&JsonValue::Real(24.0f64.to_bits()))
    );
    let reply = config_handler(&state("k", ""));
    assert_eq!(
        field(self::object(&reply), "ultrafast"),
        Some(&JsonValue::Flag(false))
    );
}

#[test]
fn stat_tells_whether_a_file_is_there() {
    let mut host = local();
    host.put("here", "a.txt", b"123").unwrap();
    let meta = host.stat("here");
    let reply = stat_done("here", meta).unwrap();
    assert_eq!(field(object(&reply), "exists"), Some(&JsonValue::Flag(true)));
    assert_eq!(field(object(&reply), "size_bytes"), Some(&JsonValue::Number(3)));
    let reply = stat_done("gone", Err(StorageError::NotFound)).unwrap();
    assert_eq!(field(object(&reply), "exists"), Some(&JsonValue::Flag(false)));
    assert_eq!(
        stat_done("x", Err(StorageError::Conflict)),
        Err(JuicehostError::InternalServerError)
    );
    assert_eq!(stat_file("a b"), Err(JuicehostError::BadRequest));
    assert_eq!(stat_file("ab"), Ok(()));
}

fn blocked(reply: Result<Reply, JuicehostError>) {
    let error = reply.unwrap_err();
    assert_eq!(error.status(), 400);
    assert_eq!(error.code(), "BLOCKED_FILE_TYPE");
}

#[test]
fn multipart_blocks_exe() {
    let mut host = local();
    blocked(host.form(
        with_key(),
        vec![
            FieldRead::Id("evil1".to_owned()),
            FieldRead::Filename("malware.exe".to_owned()),
            FieldRead::File(b"MZ\x90\x00\x03\x00\x00\x00".to_vec()),
        ],
    ));
    assert!(host.disk.is_empty());
}

#[test]
fn streaming_blocks_exe_extension() {
    let mut host = local();
    blocked(host.stream(
        "evil2",
        "malware.exe",
        with_key(),
        b"MZ\x90\x00\x03\x00\x00\x00",
    ));
}

#[test]
fn streaming_blocks_empty_files() {
    let mut host = local();
    assert_eq!(
        host.stream("empty", "a.txt", with_key(), b""),
        Err(JuicehostError::BlockedFileType(BlockReason::Empty))
    );
    assert_eq!(BlockReason::Empty.message(), "Empty files are not allowed");
}

#[test]
fn streaming_allows_safe_file() {
    let mut host = local();
    let reply = host.stream(
        "good1",
        "photo.jpg",
        with_key(),
        b"\xFF\xD8\xFF\xE0jpeg data",
    );
    assert_eq!(status(&reply), 200);
}

#[test]
fn streaming_serves_mime_from_magic_bytes_not_extension() {
    let mut host = local();
    let reply = host.stream("pngtxt", "notes.txt", with_key(), b"\x89PNG\r\n\x1a\n");
    assert_eq!(status(&reply), 200);
    host.restart();
    let (reply, _) = host.serve("pngtxt", headers(&[]));
    assert_eq!(
        header_of(&reply.unwrap(), "content-type"),
        Some("image/png")
    );
}

#[test]
fn streaming_plain_text_without_magic_keeps_original_extension() {
    let mut host = local();
    let reply = host.stream("plaintxt", "notes.txt", with_key(), b"just some plain text");
    assert_eq!(status(&reply), 200);
    host.restart();
    let (reply, _) = host.serve("plaintxt", headers(&[]));
    assert_eq!(
        header_of(&reply.unwrap(), "content-type"),
        Some("text/plain; charset=utf-8")
    );
}

#[test]
fn streaming_limits_the_size() {
    let mut host = local();
    host.state.max_file_size_bytes = 3;
    assert_eq!(
        host.stream("big", "a.txt", with_key(), b"1234"),
        Err(JuicehostError::PayloadTooLarge)
    );
    assert!(host.disk.is_empty());
    let all = vec![vec![7u8; 500], vec![8u8; 100], vec![9u8; 3]];
    host.state.max_file_size_bytes = 1000;
    let upload = store_file_streaming("long", "a.bin", with_key(), 1000);
    assert_eq!(status(&host.upload(upload, vec![], all.clone())), 200);
    assert_eq!(host.get("long").unwrap().data, all.concat());
    let sized = SizedStream::new(u64::MAX, None).chunk(u64::MAX).unwrap();
    assert_eq!(sized.chunk(1), Err(StorageError::PayloadTooLarge));
    assert_eq!(sized.finish(), Ok(()));
}

#[test]
fn internal_endpoints_open_when_no_api_key_configured() {
    let mut host = host("", "");
    let reply = host.stream("open1", "notes.txt", headers(&[]), b"open data");
    assert_eq!(status(&reply), 200);
    let (reply, _) = host.serve("open1", headers(&[]));
    assert_eq!(status(&reply), 200);
}

#[test]
fn unpaired_host_requires_file_capability_for_delete() {
    let mut host = host("", "");
    let cap = |secret: &str| headers(&[("x-juicehost-file-capability", secret)]);
    let reply = host.stream("cap-delete", "file.txt", cap("owner-secret"), b"data");
    assert_eq!(status(&reply), 200);
    for headers in [headers(&[]), cap("wrong-secret")] {
        assert_eq!(status(&host.remove("cap-delete", headers)), 403);
    }
    assert_eq!(status(&host.remove("cap-delete", cap("owner-secret"))), 204);
}

#[test]
fn file_capability_survives_rename() {
    let mut host = host("", "");
    let cap = || headers(&[("x-juicehost-file-capability", "rename-secret")]);
    assert_eq!(status(&host.stream("cap-old", "file.txt", cap(), b"data")), 200);
    let wrong = headers(&[("x-juicehost-file-capability", "wrong")]);
    let request = payload(vec![("new_id", text("cap-new"))]);
    assert_eq!(status(&host.change_id("cap-old", wrong, &request)), 403);
    assert_eq!(status(&host.change_id("cap-old", cap(), &request)), 200);
    assert_eq!(status(&host.remove("cap-new", cap())), 204);
}

#[test]
fn concat_requires_shared_part_capability() {
    let mut host = host("", "");
    let cap = |secret: &str| headers(&[("x-juicehost-file-capability", secret)]);
    for (id, body) in [("cap-part-a", "a"), ("cap-part-b", "b")] {
        let reply = host.stream(id, "file.txt", cap("concat-secret"), body.as_bytes());
        assert_eq!(status(&reply), 200);
    }
    let request = payload(vec![
        ("target_id", text("cap-merged")),
        ("filename", text("file.txt")),
        ("parts", list(&["cap-part-a", "cap-part-b"])),
    ]);
    assert_eq!(status(&host.join(cap("wrong-secret"), &request)), 403);
    assert_eq!(status(&host.join(cap("concat-secret"), &request)), 200);
    assert_eq!(host.get("cap-merged").unwrap().data, b"ab");
    assert_eq!(status(&host.remove("cap-merged", cap("concat-secret"))), 204);
}

#[test]
fn streaming_blocks_magic_bytes() {
    let mut host = local();
    blocked(host.stream(
        "evil3",
        "renamed.txt",
        with_key(),
        b"MZ\x90\x00\x03\x00\x00\x00",
    ));
}

#[test]
fn ticket_upload_uses_only_signed_filename() {
    let mut host = host("test-api-key", "test-ticket-secret");
    let token = ticket("tic-evil", "safe.txt", 9);
    let reply = host.ticket(
        "tic-evil",
        headers(&[("x-juicebox-file-name", "malware.exe")]),
        Some(&token),
        b"safe data",
    );
    assert_eq!(status(&reply), 200);
    assert!(host.disk.contains_key("tic-evil.txt"));
}

#[test]
fn ticket_upload_uses_signed_filename_extension() {
    let mut host = host("test-api-key", "test-ticket-secret");
    let token = ticket("tic-good", "report.pdf", 13);
    let reply = host.ticket(
        "tic-good",
        headers(&[("x-juicebox-file-name", "wrong.txt")]),
        Some(&token),
        b"%PDF-1.4 data",
    );
    assert_eq!(status(&reply), 200);
    host.restart();
    let (reply, _) = host.serve("tic-good", headers(&[]));
    let reply = reply.unwrap();
    assert!(header_of(&reply, "content-type")
        .unwrap()
        .starts_with("application/pdf"));
}

#[test]
fn ticket_can_carry_the_capability() {
    let mut host = host("test-api-key", "test-ticket-secret");
    let token = token(
        &[
            ("sub", word("dev-1")),
            ("file_id", word("cap")),
            ("filename", word("f.txt")),
            ("file_size", serde_json::Value::from(4u64)),
            ("file_capability", word("signed")),
            ("exp", serde_json::Value::from(now() + 300)),
        ],
        "test-ticket-secret",
    );
    let unsigned = headers(&[("x-juicehost-file-capability", "unsigned")]);
    assert_eq!(status(&host.ticket("cap", unsigned, Some(&token), b"data")), 200);
    assert_eq!(host.delete("cap", Some("unsigned")), Err(StorageError::Forbidden));
    assert_eq!(host.delete("cap", Some("signed")), Ok(true));
}

#[test]
fn banned_ip_blocked_from_file_serving() {
    assert_eq!(check_ban(true, true), Err(JuicehostError::Forbidden));
    assert_eq!(check_ban(true, false), Ok(()));
    assert_eq!(check_ban(false, true), Ok(()));
}
