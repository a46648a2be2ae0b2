//! Logical IDs, file names and extensions.

use vstd::prelude::*;
use vstd::string::*;

use crate::text::{chars_of, find_last, lower, lowered};

verus! {

/// Name of what `char::is_alphanumeric` returns.
pub uninterp spec fn unicode_alphanumeric(c: char) -> bool;

/// `char::is_alphanumeric`: the result depends on the character alone.
pub assume_specification[ char::is_alphanumeric ](c: char) -> (r: bool)
    ensures
        r == unicode_alphanumeric(c),
;

pub open spec fn ascii_alphanumeric(c: char) -> bool {
    '0' <= c <= '9' || 'A' <= c <= 'Z' || 'a' <= c <= 'z'
}

pub open spec fn component_char(c: char) -> bool {
    ascii_alphanumeric(c) || c == '-' || c == '_'
}

/// A name that can stand as an ID or an extension in a stored file name: not empty, and made of
/// ASCII letters, digits, `-` and `_`.
pub open spec fn is_component(s: Seq<char>) -> bool {
    s.len() > 0 && forall|i: int| 0 <= i < s.len() ==> component_char(#[trigger] s[i])
}

pub open spec fn id_char(c: char) -> bool {
    if (c as u32) < 128 {
        component_char(c)
    } else {
        unicode_alphanumeric(c)
    }
}

/// An ID that a request may name: not empty, and made of letters, digits, `-` and `_`, where the
/// letters and digits may be those of any script.
pub open spec fn is_id(s: Seq<char>) -> bool {
    s.len() > 0 && forall|i: int| 0 <= i < s.len() ==> id_char(#[trigger] s[i])
}

/// The last component of a path that names something: `/` separates components, empty ones and `.`
/// are skipped, and a path that ends in `..` or that has no component names nothing.
pub open spec fn file_name(path: Seq<char>) -> Option<Seq<char>>
    decreases path.len(),
{
    let slash = find_last(path, '/');
    let last = match slash {
        Some(i) => path.skip(i + 1),
        None => path,
    };
    if last.len() == 0 || last == seq!['.'] {
        match slash {
            Some(i) => if 0 <= i < path.len() {
                file_name(path.take(i))
            } else {
                None
            },
            None => None,
        }
    } else if last == seq!['.', '.'] {
        None
    } else {
        Some(last)
    }
}

/// What follows the last dot of a file name. A dot that starts the name does not count.
pub open spec fn extension(name: Seq<char>) -> Option<Seq<char>> {
    match find_last(name, '.') {
        Some(i) => if i > 0 {
            Some(name.skip(i + 1))
        } else {
            None
        },
        None => None,
    }
}

/// What precedes the last dot of a file name. A dot that starts the name does not count.
pub open spec fn stem(name: Seq<char>) -> Seq<char> {
    match find_last(name, '.') {
        Some(i) => if i > 0 {
            name.take(i)
        } else {
            name
        },
        None => name,
    }
}

/// The extension of the file that `path` names; `bin` where there is none.
pub open spec fn extension_of(path: Seq<char>) -> Seq<char> {
    match file_name(path) {
        Some(name) => match extension(name) {
            Some(ext) => ext,
            None => "bin"@,
        },
        None => "bin"@,
    }
}

/// The extension under which a file is stored: that of its name in lower case, where it is a valid
/// component, and `bin` otherwise.
pub open spec fn stored_extension(path: Seq<char>) -> Seq<char> {
    if is_component(extension_of(path)) {
        lowered(extension_of(path))
    } else {
        "bin"@
    }
}

/// The file name that holds the content of `id`.
pub open spec fn stored_name(id: Seq<char>, ext: Seq<char>) -> Seq<char> {
    id + seq!['.'] + ext
}

/// The name under which an upload is stored: that of the upload, with the extension that its
/// content was recognised by, where it was.
pub open spec fn named_by_content(path: Seq<char>, detected: Option<Seq<char>>) -> Seq<char> {
    match detected {
        Some(ext) => (match file_name(path) {
            Some(name) => if stem(name).len() > 0 {
                stem(name)
            } else {
                "file"@
            },
            None => "file"@,
        }) + seq!['.'] + ext,
        None => path,
    }
}

fn is_component_char(c: char) -> (r: bool)
    ensures
        r == component_char(c),
{
    ('0' <= c && c <= '9') || ('A' <= c && c <= 'Z') || ('a' <= c && c <= 'z') || c == '-' || c
        == '_'
}

/// Tells whether `value` can stand as an ID or an extension in a stored file name.
pub fn valid_component(value: &str) -> (r: bool)
    ensures
        r == is_component(value@),
{
    if value.is_empty() {
        return false;
    }
    let v = chars_of(value);
    let mut i: usize = 0;
    while i < v.len()
        invariant
            v@ == value@,
            i <= v@.len(),
            forall|j: int| 0 <= j < i ==> component_char(#[trigger] value@[j]),
        decreases v@.len() - i,
    {
        if !is_component_char(v[i]) {
            assert(!component_char(value@[i as int]));
            return false;
        }
        i = i + 1;
    }
    true
}

/// Validate a file ID: must be non-empty and contain only alphanumeric, `-`, or `_`.
pub fn is_valid_id(id: &str) -> (r: bool)
    ensures
        r == is_id(id@),
{
    if id.is_empty() {
        return false;
    }
    let v = chars_of(id);
    let mut i: usize = 0;
    while i < v.len()
        invariant
            v@ == id@,
            i <= v@.len(),
            forall|j: int| 0 <= j < i ==> id_char(#[trigger] id@[j]),
        decreases v@.len() - i,
    {
        let c = v[i];
        let ok = if (c as u32) < 128 {
            is_component_char(c)
        } else {
            c.is_alphanumeric()
        };
        if !ok {
            assert(!id_char(id@[i as int]));
            return false;
        }
        i = i + 1;
    }
    true
}

/// The bounds of the file name within a path.
fn file_name_bounds(v: &Vec<char>) -> (r: Option<(usize, usize)>)
    ensures
        match r {
            Some((from, to)) => from < to <= v@.len() && file_name(v@) == Some(
                v@.subrange(from as int, to as int),
            ),
            None => file_name(v@) is None,
        },
{
    let mut to: usize = v.len();
    assert(v@.take(to as int) =~= v@);
    loop
        invariant
            to <= v@.len(),
            file_name(v@) == file_name(v@.take(to as int)),
        decreases to,
    {
        let ghost path = v@.take(to as int);
        let mut from: usize = to;
        proof {
            crate::text::lemma_find_last(path, '/');
        }
        while from > 0 && v[from - 1] != '/'
            invariant
                from <= to <= v@.len(),
                path == v@.take(to as int),
                forall|j: int| from <= j < to ==> v@[j] != '/',
            decreases from,
        {
            from = from - 1;
        }
        let ghost last = v@.subrange(from as int, to as int);
        proof {
            if from == 0 {
                assert(find_last(path, '/') is None) by {
                    if find_last(path, '/') is Some {
                        let k = find_last(path, '/').unwrap();
                        assert(path[k] == v@[k]);
                    }
                }
                assert(path =~= last);
            } else {
                assert(path[from - 1] == '/');
                assert(path.contains(path[from - 1]));
                let k = find_last(path, '/').unwrap();
                assert(path[k] == v@[k]);
                assert(k == from - 1);
                assert(path.skip(k + 1) =~= last);
                assert(path.take(k) =~= v@.take(from - 1));
            }
        }
        let skipped = from == to || (to - from == 1 && v[from] == '.');
        proof {
            if skipped && last.len() > 0 {
                assert(last =~= seq!['.']);
            }
            if last == seq!['.'] {
                assert(last.len() == 1 && last[0] == '.');
                assert(v@[from as int] == '.');
            }
        }
        if skipped {
            if from == 0 {
                return None;
            }
            to = from - 1;
        } else if to - from == 2 && v[from] == '.' && v[from + 1] == '.' {
            assert(last =~= seq!['.', '.']);
            return None;
        } else {
            proof {
                if last == seq!['.', '.'] {
                    assert(last.len() == 2 && last[0] == '.' && last[1] == '.');
                    assert(v@[from as int] == '.' && v@[from + 1] == '.');
                }
            }
            return Some((from, to));
        }
    }
}

/// The extension of the file that `filename` names; `bin` where there is none.
pub fn extract_extension(filename: &str) -> (r: &str)
    ensures
        r@ == extension_of(filename@),
{
    let v = chars_of(filename);
    match file_name_bounds(&v) {
        Some((from, to)) => {
            let ghost name = v@.subrange(from as int, to as int);
            match last_dot(&v, from, to) {
                Some(dot) => {
                    assert(name.skip(dot + 1 - from) =~= v@.subrange(dot + 1, to as int));
                    filename.substring_char(dot + 1, to)
                },
                None => "bin",
            }
        },
        None => "bin",
    }
}

/// The last dot of the name `v[from..to]`, unless it starts the name.
fn last_dot(v: &Vec<char>, from: usize, to: usize) -> (r: Option<usize>)
    requires
        from < to <= v@.len(),
    ensures
        match r {
            Some(dot) => from < dot < to && find_last(v@.subrange(from as int, to as int), '.')
                == Some(dot - from),
            None => match find_last(v@.subrange(from as int, to as int), '.') {
                Some(i) => i <= 0,
                None => true,
            },
        },
{
    let ghost name = v@.subrange(from as int, to as int);
    proof {
        crate::text::lemma_find_last(name, '.');
    }
    let mut i: usize = to;
    while i > from + 1
        invariant
            from < i <= to <= v@.len(),
            name == v@.subrange(from as int, to as int),
            forall|j: int| i <= j < to ==> v@[j] != '.',
            match find_last(name, '.') {
                Some(k) => 0 <= k < name.len() && name[k] == '.' && forall|j: int|
                    k < j < name.len() ==> name[j] != '.',
                None => !name.contains('.'),
            },
        decreases i,
    {
        i = i - 1;
        if v[i] == '.' {
            assert(name[i - from] == '.');
            assert(name.contains(name[i - from]));
            let ghost k = find_last(name, '.').unwrap();
            assert(name[k] == v@[from + k]);
            return Some(i);
        }
    }
    proof {
        if find_last(name, '.') is Some {
            let k = find_last(name, '.').unwrap();
            assert(name[k] == v@[from + k]);
        }
    }
    None
}

/// The extension under which a file is stored.
pub fn safe_extension(filename: &str) -> (r: String)
    ensures
        r@ == stored_extension(filename@),
{
    let ext = extract_extension(filename);
    if valid_component(ext) {
        lower(ext)
    } else {
        "bin".to_owned()
    }
}

/// Rewrite a filename so storage uses the content-detected extension. When detection found a
/// signature (e.g. a PNG uploaded as `notes.txt`), the stored file gets `.png`; the original
/// filename is kept when nothing was detected.
pub fn content_filename(filename: &str, detected: Option<&str>) -> (r: String)
    ensures
        r@ == named_by_content(
            filename@,
            match detected {
                Some(ext) => Some(ext@),
                None => None,
            },
        ),
{
    match detected {
        Some(ext) => {
            let v = chars_of(filename);
            let mut r = match file_name_bounds(&v) {
                Some((from, to)) => {
                    let ghost name = v@.subrange(from as int, to as int);
                    match last_dot(&v, from, to) {
                        Some(dot) => {
                            assert(name.take(dot - from) =~= v@.subrange(from as int, dot as int));
                            crate::text::text_of(&v, from, dot)
                        },
                        None => crate::text::text_of(&v, from, to),
                    }
                },
                None => "file".to_owned(),
            };
            r.push('.');
            r.append(ext);
            assert(r@ =~= named_by_content(filename@, Some(ext@)));
            r
        },
        None => filename.to_owned(),
    }
}

/// The file name that holds the content of `id`.
pub fn join_name(id: &str, ext: &str) -> (r: String)
    ensures
        r@ == stored_name(id@, ext@),
{
    let mut r = id.to_owned();
    r.push('.');
    r.append(ext);
    assert(r@ =~= stored_name(id@, ext@));
    r
}

/// A path without `/` that is no dot name is its own file name.
proof fn lemma_plain_name(name: Seq<char>)
    requires
        name.len() > 0,
        !name.contains('/'),
        name != seq!['.'],
        name != seq!['.', '.'],
    ensures
        file_name(name) == Some(name),
{
    crate::text::lemma_find_last(name, '/');
}

/// A file name holds no `/`, is not empty, and is no dot name.
proof fn lemma_file_name(path: Seq<char>)
    ensures
        match file_name(path) {
            Some(name) => name.len() > 0 && !name.contains('/') && name != seq!['.'] && name
                != seq!['.', '.'],
            None => true,
        },
    decreases path.len(),
{
    crate::text::lemma_find_last(path, '/');
    match find_last(path, '/') {
        Some(i) => {
            let last = path.skip(i + 1);
            assert(!last.contains('/')) by {
                if last.contains('/') {
                    let j = choose|j: int| 0 <= j < last.len() && last[j] == '/';
                    assert(path[i + 1 + j] == '/');
                }
            }
            lemma_file_name(path.take(i));
        },
        None => {},
    }
}

/// The last dot of `a.b`, where `b` holds none, is the one between the two.
pub(crate) proof fn lemma_dotted(a: Seq<char>, b: Seq<char>)
    requires
        !b.contains('.'),
    ensures
        find_last(stored_name(a, b), '.') == Some(a.len() as int),
        stored_name(a, b).take(a.len() as int) == a,
        stored_name(a, b).skip(a.len() as int + 1) == b,
{
    let s = stored_name(a, b);
    crate::text::lemma_find_last(s, '.');
    assert(s[a.len() as int] == '.');
    assert(s.contains(s[a.len() as int]));
    let k = find_last(s, '.').unwrap();
    if k > a.len() {
        assert(s[k] == b[k - a.len() - 1]);
        assert(b.contains(b[k - a.len() - 1]));
    }
    assert(s.take(a.len() as int) =~= a);
    assert(s.skip(a.len() as int + 1) =~= b);
}

/// A valid component holds neither `.` nor `/`.
pub(crate) proof fn lemma_component_chars(s: Seq<char>)
    requires
        is_component(s),
    ensures
        !s.contains('.'),
        !s.contains('/'),
{
    if s.contains('.') {
        let i = choose|i: int| 0 <= i < s.len() && s[i] == '.';
        assert(component_char(s[i]));
    }
    if s.contains('/') {
        let i = choose|i: int| 0 <= i < s.len() && s[i] == '/';
        assert(component_char(s[i]));
    }
}

/// A stored name is a single path component, so that it names a file of the storage directory
/// itself, and reading it back gives the ID and the extension it was made of.
pub proof fn stored_name_round_trip(id: Seq<char>, ext: Seq<char>)
    requires
        is_component(id),
        is_component(ext),
    ensures
        !stored_name(id, ext).contains('/'),
        file_name(stored_name(id, ext)) == Some(stored_name(id, ext)),
        stem(stored_name(id, ext)) == id,
        extension(stored_name(id, ext)) == Some(ext),
{
    let s = stored_name(id, ext);
    lemma_component_chars(id);
    lemma_component_chars(ext);
    lemma_dotted(id, ext);
    assert(!s.contains('/')) by {
        if s.contains('/') {
            let j = choose|j: int| 0 <= j < s.len() && s[j] == '/';
            if j < id.len() {
                assert(id.contains(id[j]));
            } else if j > id.len() {
                assert(s[j] == ext[j - id.len() - 1]);
                assert(ext.contains(ext[j - id.len() - 1]));
            }
        }
    }
    assert(s.len() >= 3);
    lemma_plain_name(s);
}

/// Two files share a stored name only where they share ID and extension.
pub proof fn stored_names_are_distinct(
    id1: Seq<char>,
    ext1: Seq<char>,
    id2: Seq<char>,
    ext2: Seq<char>,
)
    requires
        is_component(id1),
        is_component(ext1),
        is_component(id2),
        is_component(ext2),
        stored_name(id1, ext1) == stored_name(id2, ext2),
    ensures
        id1 == id2,
        ext1 == ext2,
{
    stored_name_round_trip(id1, ext1);
    stored_name_round_trip(id2, ext2);
}

/// Whatever an upload is called, it is stored under a valid extension.
pub proof fn stored_extension_is_valid(path: Seq<char>)
    ensures
        is_component(stored_extension(path)),
{
    reveal_strlit("bin");
    let ext = extension_of(path);
    if is_component(ext) {
        assert forall|i: int| 0 <= i < lowered(ext).len() implies component_char(
            #[trigger] lowered(ext)[i],
        ) by {
            assert(component_char(ext[i]));
        }
    } else {
        assert forall|i: int| 0 <= i < "bin"@.len() implies component_char(#[trigger] "bin"@[i]) by {
        }
    }
}

/// Every name that storage accepts is an ID that a request may name.
pub proof fn components_are_ids(s: Seq<char>)
    requires
        is_component(s),
    ensures
        is_id(s),
{
    assert forall|i: int| 0 <= i < s.len() implies id_char(#[trigger] s[i]) by {
        assert(component_char(s[i]));
    }
}

/// Where the content of an upload was recognised, it is stored under the extension of that
/// content, whatever extension its name has.
pub proof fn recognised_content_decides_extension(path: Seq<char>, ext: Seq<char>)
    requires
        is_component(ext),
    ensures
        stored_extension(named_by_content(path, Some(ext))) == lowered(ext),
{
    lemma_component_chars(ext);
    lemma_file_name(path);
    reveal_strlit("file");
    let base = match file_name(path) {
        Some(name) => if stem(name).len() > 0 {
            stem(name)
        } else {
            "file"@
        },
        None => "file"@,
    };
    assert(!base.contains('/')) by {
        if base.contains('/') {
            let j = choose|j: int| 0 <= j < base.len() && base[j] == '/';
            match file_name(path) {
                Some(name) => if stem(name).len() > 0 {
                    crate::text::lemma_find_last(name, '.');
                    assert(name[j] == '/');
                    assert(name.contains(name[j]));
                },
                None => {},
            }
        }
    }
    let s = stored_name(base, ext);
    assert(s == named_by_content(path, Some(ext)));
    lemma_dotted(base, ext);
    assert(!s.contains('/')) by {
        if s.contains('/') {
            let j = choose|j: int| 0 <= j < s.len() && s[j] == '/';
            if j < base.len() {
                assert(base.contains(base[j]));
            } else if j > base.len() {
                assert(s[j] == ext[j - base.len() - 1]);
                assert(ext.contains(ext[j - base.len() - 1]));
            }
        }
    }
    assert(base.len() > 0);
    assert(s.len() >= 3);
    lemma_plain_name(s);
}

/// An ID is judged letter by letter: two IDs put together are an ID, and every piece of one is an ID,
/// however long it is and wherever it is cut.
pub proof fn ids_are_judged_by_their_letters(a: Seq<char>, b: Seq<char>)
    requires
        a.len() > 0,
        b.len() > 0,
    ensures
        is_id(a + b) <==> is_id(a) && is_id(b),
        is_component(a + b) <==> is_component(a) && is_component(b),
        !is_id(Seq::<char>::empty()),
        !is_component(Seq::<char>::empty()),
{
    let s = a + b;
    assert forall|i: int| 0 <= i < a.len() implies #[trigger] a[i] == s[i] by {}
    assert forall|i: int| 0 <= i < b.len() implies #[trigger] b[i] == s[a.len() + i] by {}
    if is_id(s) {
        assert forall|i: int| 0 <= i < a.len() implies id_char(#[trigger] a[i]) by {
            assert(id_char(s[i]));
        }
        assert forall|i: int| 0 <= i < b.len() implies id_char(#[trigger] b[i]) by {
            assert(id_char(s[a.len() + i]));
        }
    }
    if is_component(s) {
        assert forall|i: int| 0 <= i < a.len() implies component_char(#[trigger] a[i]) by {
            assert(component_char(s[i]));
        }
        assert forall|i: int| 0 <= i < b.len() implies component_char(#[trigger] b[i]) by {
            assert(component_char(s[a.len() + i]));
        }
    }
}

/// One letter is an ID exactly where it is an ASCII letter or digit, `-` or `_`, or a letter or digit of
/// another script; storage takes the first of these alone.
pub proof fn letters_of_an_id(c: char)
    ensures
        ({
            let n = c as u32;
            let plain = 48 <= n <= 57 || 65 <= n <= 90 || 97 <= n <= 122 || n == 45 || n == 95;
            &&& is_component(seq![c]) <==> plain
            &&& is_id(seq![c]) <==> plain || (n >= 128 && unicode_alphanumeric(c))
        }),
{
    let s = seq![c];
    assert(s[0] == c);
}

/// Directories before a name do not count: what follows the last slash names the file.
pub proof fn directories_do_not_count(dir: Seq<char>, name: Seq<char>)
    requires
        name.len() > 0,
        !name.contains('/'),
        name != seq!['.'],
        name != seq!['.', '.'],
    ensures
        file_name(name) == Some(name),
        file_name(dir + seq!['/'] + name) == Some(name),
        extension_of(dir + seq!['/'] + name) == extension_of(name),
        stored_extension(dir + seq!['/'] + name) == stored_extension(name),
{
    lemma_plain_name(name);
    let path = dir + seq!['/'] + name;
    crate::text::lemma_find_last(path, '/');
    assert(path[dir.len() as int] == '/');
    assert(path.contains(path[dir.len() as int]));
    let i = find_last(path, '/')->0;
    if i > dir.len() {
        assert(path[i] == name[i - dir.len() - 1]);
        assert(name.contains(name[i - dir.len() - 1]));
    }
    assert(path.skip(i + 1) =~= name);
}

/// A file is stored under what follows the last dot of its name, in lower case, where that is made of
/// letters, digits, `-` and `_`; what stands before that dot does not count.
pub proof fn extension_follows_the_last_dot(base: Seq<char>, ext: Seq<char>)
    requires
        base.len() > 0,
        !base.contains('/'),
        !ext.contains('/'),
        !ext.contains('.'),
        ext.len() > 0,
    ensures
        extension_of(base + seq!['.'] + ext) == ext,
        stored_extension(base + seq!['.'] + ext) == (if is_component(ext) {
            lowered(ext)
        } else {
            "bin"@
        }),
        named_by_content(base + seq!['.'] + ext, None) == base + seq!['.'] + ext,
        forall|found: Seq<char>| #[trigger]
            named_by_content(base + seq!['.'] + ext, Some(found)) == base + seq!['.'] + found,
{
    let s = stored_name(base, ext);
    lemma_dotted(base, ext);
    assert(!s.contains('/')) by {
        if s.contains('/') {
            let j = choose|j: int| 0 <= j < s.len() && s[j] == '/';
            if j < base.len() {
                assert(base.contains(base[j]));
            } else if j > base.len() {
                assert(s[j] == ext[j - base.len() - 1]);
                assert(ext.contains(ext[j - base.len() - 1]));
            }
        }
    }
    assert(s.len() >= 3);
    lemma_plain_name(s);
}

/// A name without a dot, or with one at its front alone, has no extension: its file is stored as `bin`,
/// and content that was recognised is put behind the whole name.
pub proof fn name_without_extension_is_bin(name: Seq<char>)
    requires
        name.len() > 0,
        !name.contains('/'),
        forall|i: int| 1 <= i < name.len() ==> #[trigger] name[i] != '.',
        name != seq!['.'],
        name != seq!['.', '.'],
    ensures
        extension_of(name) == "bin"@,
        stored_extension(name) == "bin"@,
        forall|found: Seq<char>| #[trigger]
            named_by_content(name, Some(found)) == name + seq!['.'] + found,
{
    lemma_plain_name(name);
    crate::text::lemma_find_last(name, '.');
    stored_extension_is_valid(name);
    reveal_strlit("bin");
    assert(lowered("bin"@) =~= "bin"@);
}

/// The file of an ID is called by the ID and its extension, with a dot between them.
pub proof fn stored_name_is_id_and_extension(id: Seq<char>, ext: Seq<char>)
    ensures
        stored_name(id, ext).len() == id.len() + 1 + ext.len(),
        crate::text::begins_with(stored_name(id, ext), id),
        crate::text::finishes_with(stored_name(id, ext), ext),
        stored_name(id, ext)[id.len() as int] == '.',
{
    crate::text::prefix_and_rest(id, seq!['.'] + ext, id);
    assert(id + (seq!['.'] + ext) =~= stored_name(id, ext));
    crate::text::prefix_and_rest(ext, id + seq!['.'], ext);
    assert(id + seq!['.'] + ext =~= stored_name(id, ext));
}

} // verus!
