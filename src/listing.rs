//! Entries of a directory listing: their icons, whether they open as text,
//! how their metadata reads, the order they are listed in, and the
//! selection that moves over them.
use vstd::prelude::*;
use crate::buffer::{chars_of, same_chars, string_of};

verus! {

/// The text `s` in lower case, as `str::to_lowercase` gives it.
pub uninterp spec fn lowercase_of(s: Seq<char>) -> Seq<char>;

/// Relies on `str::to_lowercase`: the lower-case form of a string depends on
/// its characters alone.
#[verifier::external_body]
fn lowercase(s: &str) -> (r: String)
    ensures
        r@ == lowercase_of(s@),
{
    s.to_lowercase()
}

/// The UTC date and time, to the minute, of `secs` seconds after the Unix
/// epoch, written `YYYY-MM-DD HH:MM` (the epoch itself where out of range).
pub uninterp spec fn utc_minute_text(secs: i64) -> Seq<char>;

/// Relies on chrono: `DateTime::from_timestamp` reads the seconds as UTC and
/// gives `None` out of range, where the default (the epoch) stands in;
/// `format` writes the pattern.
#[verifier::external_body]
fn utc_minute(secs: i64) -> (r: String)
    ensures
        r@ == utc_minute_text(secs),
{
    chrono::DateTime::from_timestamp(secs, 0).unwrap_or_default().format("%Y-%m-%d %H:%M").to_string()
}

/// Whether `s` reads exactly `expected`.
fn text_is(s: &str, expected: &str) -> (r: bool)
    ensures
        r == (s@ == expected@),
{
    let a = chars_of(s);
    let b = chars_of(expected);
    same_chars(&a, &b)
}

/// One entry of a directory listing, with what the listing shows of it.
pub struct FileItem {
    pub name: String,
    pub is_dir: bool,
    pub size: u64,
    /// Seconds from the Unix epoch to the last modification; `None` when it
    /// lies before the epoch.
    pub modified_secs: Option<u64>,
    pub permissions: String,
    pub is_hidden: bool,
    /// The part of the name after its last dot, if the name has one.
    pub extension: Option<String>,
}

/// Whether a name is hidden by convention: it starts with a dot.
pub open spec fn hidden_name(name: Seq<char>) -> bool {
    name.len() > 0 && name[0] == '.'
}

/// The icon of an entry, from whether it is a directory and its extension
/// in lower case.
pub open spec fn icon_for(is_dir: bool, ext: Option<Seq<char>>) -> Seq<char> {
    if is_dir {
        "📁"@
    } else {
        match ext {
            None => "📄"@,
            Some(e) => if e == "rs"@ {
                "🦀"@
            } else if e == "py"@ {
                "🐍"@
            } else if e == "js"@ || e == "ts"@ {
                "📜"@
            } else if e == "html"@ {
                "🌐"@
            } else if e == "css"@ {
                "🎨"@
            } else if e == "md"@ {
                "📝"@
            } else if e == "txt"@ {
                "📃"@
            } else if e == "png"@ || e == "jpg"@ || e == "jpeg"@ || e == "gif"@ {
                "🖼️"@
            } else if e == "mp3"@ || e == "wav"@ || e == "flac"@ {
                "🎵"@
            } else if e == "mp4"@ || e == "avi"@ || e == "mkv"@ {
                "🎬"@
            } else {
                "📄"@
            },
        }
    }
}

/// Extensions, in lower case, of files that open as text.
pub open spec fn text_extension(e: Seq<char>) -> bool {
    e == "txt"@ || e == "md"@ || e == "rs"@ || e == "py"@ || e == "js"@ || e == "ts"@ || e
        == "html"@ || e == "css"@ || e == "json"@ || e == "xml"@ || e == "yaml"@ || e == "yml"@
        || e == "toml"@ || e == "cfg"@ || e == "conf"@ || e == "log"@ || e == "sh"@ || e
        == "bash"@ || e == "zsh"@ || e == "fish"@ || e == "c"@ || e == "cpp"@ || e == "h"@ || e
        == "hpp"@ || e == "java"@ || e == "go"@ || e == "php"@ || e == "rb"@ || e == "pl"@ || e
        == "lua"@ || e == "vim"@ || e == "sql"@ || e == "csv"@
}

/// Names, in lower case, of files without extension that open as text.
pub open spec fn text_file_name(n: Seq<char>) -> bool {
    n == "readme"@ || n == "license"@ || n == "changelog"@ || n == "makefile"@ || n
        == "dockerfile"@ || n == "gitignore"@ || n == "gitattributes"@ || n == "editorconfig"@
}

/// Whether an entry opens as text: not a directory, and a known text
/// extension, or no extension and a known text file name.
pub open spec fn opens_as_text(item: FileItem) -> bool {
    !item.is_dir && match item.extension {
        Some(e) => text_extension(lowercase_of(e@)),
        None => text_file_name(lowercase_of(item.name@)),
    }
}

/// `c` when `mode` has the permission bit `bit`, else `-`.
pub open spec fn permission_char(mode: u32, bit: u32, c: char) -> char {
    if mode & bit != 0 {
        c
    } else {
        '-'
    }
}

/// The permissions column: the kind of entry, then read, write and execute
/// for owner, group and others.
pub open spec fn permission_text(is_dir: bool, mode: u32) -> Seq<char> {
    seq![
        if is_dir {
            'd'
        } else {
            '-'
        },
        permission_char(mode, 0o400, 'r'),
        permission_char(mode, 0o200, 'w'),
        permission_char(mode, 0o100, 'x'),
        permission_char(mode, 0o040, 'r'),
        permission_char(mode, 0o020, 'w'),
        permission_char(mode, 0o010, 'x'),
        permission_char(mode, 0o004, 'r'),
        permission_char(mode, 0o002, 'w'),
        permission_char(mode, 0o001, 'x'),
    ]
}

fn permission_char_of(mode: u32, bit: u32, c: char) -> (r: char)
    ensures
        r == permission_char(mode, bit, c),
{
    if mode & bit != 0 {
        c
    } else {
        '-'
    }
}

/// The permissions column for an entry with Unix mode bits `mode`.
pub fn format_permissions(is_dir: bool, mode: u32) -> (r: String)
    ensures
        r@ == permission_text(is_dir, mode),
{
    let mut out: Vec<char> = Vec::new();
    out.push(
        if is_dir {
            'd'
        } else {
            '-'
        },
    );
    out.push(permission_char_of(mode, 0o400, 'r'));
    out.push(permission_char_of(mode, 0o200, 'w'));
    out.push(permission_char_of(mode, 0o100, 'x'));
    out.push(permission_char_of(mode, 0o040, 'r'));
    out.push(permission_char_of(mode, 0o020, 'w'));
    out.push(permission_char_of(mode, 0o010, 'x'));
    out.push(permission_char_of(mode, 0o004, 'r'));
    out.push(permission_char_of(mode, 0o002, 'w'));
    out.push(permission_char_of(mode, 0o001, 'x'));
    proof {
        assert(out@ =~= permission_text(is_dir, mode));
    }
    string_of(&out)
}

/// Whether `name` is hidden by convention.
pub fn is_hidden_name(name: &str) -> (r: bool)
    ensures
        r == hidden_name(name@),
{
    let chars = chars_of(name);
    chars.len() > 0 && chars[0] == '.'
}

fn extension_icon(e: &str) -> (r: String)
    ensures
        r@ == icon_for(false, Some(e@)),
{
    if text_is(e, "rs") {
        "🦀".to_string()
    } else if text_is(e, "py") {
        "🐍".to_string()
    } else if text_is(e, "js") || text_is(e, "ts") {
        "📜".to_string()
    } else if text_is(e, "html") {
        "🌐".to_string()
    } else if text_is(e, "css") {
        "🎨".to_string()
    } else if text_is(e, "md") {
        "📝".to_string()
    } else if text_is(e, "txt") {
        "📃".to_string()
    } else if text_is(e, "png") || text_is(e, "jpg") || text_is(e, "jpeg") || text_is(e, "gif") {
        "🖼️".to_string()
    } else if text_is(e, "mp3") || text_is(e, "wav") || text_is(e, "flac") {
        "🎵".to_string()
    } else if text_is(e, "mp4") || text_is(e, "avi") || text_is(e, "mkv") {
        "🎬".to_string()
    } else {
        "📄".to_string()
    }
}

fn is_text_extension(e: &str) -> (r: bool)
    ensures
        r == text_extension(e@),
{
    text_is(e, "txt") || text_is(e, "md") || text_is(e, "rs") || text_is(e, "py") || text_is(
        e,
        "js",
    ) || text_is(e, "ts") || text_is(e, "html") || text_is(e, "css") || text_is(e, "json")
        || text_is(e, "xml") || text_is(e, "yaml") || text_is(e, "yml") || text_is(e, "toml")
        || text_is(e, "cfg") || text_is(e, "conf") || text_is(e, "log") || text_is(e, "sh")
        || text_is(e, "bash") || text_is(e, "zsh") || text_is(e, "fish") || text_is(e, "c")
        || text_is(e, "cpp") || text_is(e, "h") || text_is(e, "hpp") || text_is(e, "java")
        || text_is(e, "go") || text_is(e, "php") || text_is(e, "rb") || text_is(e, "pl")
        || text_is(e, "lua") || text_is(e, "vim") || text_is(e, "sql") || text_is(e, "csv")
}

fn is_text_file_name(n: &str) -> (r: bool)
    ensures
        r == text_file_name(n@),
{
    text_is(n, "readme") || text_is(n, "license") || text_is(n, "changelog") || text_is(
        n,
        "makefile",
    ) || text_is(n, "dockerfile") || text_is(n, "gitignore") || text_is(n, "gitattributes")
        || text_is(n, "editorconfig")
}

impl FileItem {
    /// An entry as read from a directory; it is hidden when its name starts
    /// with a dot.
    pub fn new(
        name: String,
        is_dir: bool,
        size: u64,
        modified_secs: Option<u64>,
        permissions: String,
        extension: Option<String>,
    ) -> (r: FileItem)
        ensures
            r.name == name,
            r.is_dir == is_dir,
            r.size == size,
            r.modified_secs == modified_secs,
            r.permissions == permissions,
            r.extension == extension,
            r.is_hidden == hidden_name(name@),
    {
        let is_hidden = is_hidden_name(name.as_str());
        FileItem { name, is_dir, size, modified_secs, permissions, is_hidden, extension }
    }

    /// The icon shown before the entry's name.
    pub fn get_icon(&self) -> (r: String)
        ensures
            r@ == icon_for(
                self.is_dir,
                match self.extension {
                    Some(e) => Some(lowercase_of(e@)),
                    None => None,
                },
            ),
    {
        if self.is_dir {
            return "📁".to_string();
        }
        match &self.extension {
            Some(e) => {
                let lower = lowercase(e.as_str());
                extension_icon(lower.as_str())
            },
            None => "📄".to_string(),
        }
    }

    /// The modification time as `YYYY-MM-DD HH:MM` in UTC, or `Unknown`.
    pub fn format_date(&self) -> (r: String)
        ensures
            r@ == match self.modified_secs {
                Some(s) => utc_minute_text(s as i64),
                None => "Unknown"@,
            },
    {
        match self.modified_secs {
            Some(s) => utc_minute(s as i64),
            None => "Unknown".to_string(),
        }
    }

    /// Whether the entry opens in the text viewer.
    pub fn is_text_file(&self) -> (r: bool)
        ensures
            r == opens_as_text(*self),
    {
        if self.is_dir {
            return false;
        }
        match &self.extension {
            Some(e) => {
                let lower = lowercase(e.as_str());
                is_text_extension(lower.as_str())
            },
            None => {
                let lower = lowercase(self.name.as_str());
                is_text_file_name(lower.as_str())
            },
        }
    }
}

/// `x` comes no later than `y` in lexicographic order of characters (code
/// points), which is the order of their UTF-8 bytes.
pub open spec fn seq_le(x: Seq<char>, y: Seq<char>) -> bool
    decreases x.len(),
{
    if x.len() == 0 {
        true
    } else if y.len() == 0 {
        false
    } else if x[0] < y[0] {
        true
    } else if x[0] > y[0] {
        false
    } else {
        seq_le(x.drop_first(), y.drop_first())
    }
}

/// Entry `a` may be listed before entry `b`: directories come first, then
/// names in lower case, in order.
pub open spec fn listed_before(a: FileItem, b: FileItem) -> bool {
    (a.is_dir && !b.is_dir) || (a.is_dir == b.is_dir && seq_le(
        lowercase_of(a.name@),
        lowercase_of(b.name@),
    ))
}

/// Whether the entry is listed when hidden entries are shown or not.
pub open spec fn shown(item: FileItem, show_hidden: bool) -> bool {
    show_hidden || !item.is_hidden
}

pub proof fn lemma_seq_le_total(x: Seq<char>, y: Seq<char>)
    ensures
        seq_le(x, y) || seq_le(y, x),
    decreases x.len(),
{
    if x.len() > 0 && y.len() > 0 && x[0] == y[0] {
        lemma_seq_le_total(x.drop_first(), y.drop_first());
    }
}

pub proof fn lemma_seq_le_trans(x: Seq<char>, y: Seq<char>, z: Seq<char>)
    requires
        seq_le(x, y),
        seq_le(y, z),
    ensures
        seq_le(x, z),
    decreases x.len(),
{
    if x.len() > 0 && y.len() > 0 && z.len() > 0 && x[0] == y[0] && y[0] == z[0] {
        lemma_seq_le_trans(x.drop_first(), y.drop_first(), z.drop_first());
    }
}

pub proof fn lemma_listed_total(a: FileItem, b: FileItem)
    ensures
        listed_before(a, b) || listed_before(b, a),
{
    lemma_seq_le_total(lowercase_of(a.name@), lowercase_of(b.name@));
}

pub proof fn lemma_listed_trans(a: FileItem, b: FileItem, c: FileItem)
    requires
        listed_before(a, b),
        listed_before(b, c),
    ensures
        listed_before(a, c),
{
    if a.is_dir == b.is_dir && b.is_dir == c.is_dir {
        lemma_seq_le_trans(lowercase_of(a.name@), lowercase_of(b.name@), lowercase_of(c.name@));
    }
}

/// Whether `x` comes no later than `y`.
fn chars_le(x: &Vec<char>, y: &Vec<char>) -> (r: bool)
    ensures
        r == seq_le(x@, y@),
{
    let mut i: usize = 0;
    proof {
        assert(x@.skip(0) =~= x@);
        assert(y@.skip(0) =~= y@);
    }
    while i < x.len() && i < y.len() && x[i] == y[i]
        invariant
            i <= x@.len(),
            i <= y@.len(),
            seq_le(x@, y@) == seq_le(x@.skip(i as int), y@.skip(i as int)),
        decreases x@.len() - i,
    {
        proof {
            assert(x@.skip(i as int).drop_first() =~= x@.skip(i + 1));
            assert(y@.skip(i as int).drop_first() =~= y@.skip(i + 1));
        }
        i = i + 1;
    }
    proof {
        if i < x@.len() && i < y@.len() {
            assert(x@.skip(i as int)[0] == x@[i as int]);
            assert(y@.skip(i as int)[0] == y@[i as int]);
        }
    }
    if i == x.len() {
        true
    } else if i == y.len() {
        false
    } else {
        x[i] < y[i]
    }
}

/// `r` lists distinct entries of `items`, each allowed before the next,
/// and entries that tie in the order of their indices.
pub open spec fn ordered_listing(items: Seq<FileItem>, r: Seq<usize>) -> bool {
    &&& forall|k: int| 0 <= k < r.len() ==> #[trigger] r[k] < items.len()
    &&& forall|a: int, b: int| 0 <= a < b < r.len() ==> #[trigger] r[a] != #[trigger] r[b]
    &&& forall|a: int, b: int|
        0 <= a < b < r.len() ==> listed_before(items[#[trigger] r[a] as int], items[#[trigger] r[b] as int])
    &&& forall|a: int, b: int|
        0 <= a < b < r.len() && listed_before(items[#[trigger] r[b] as int], items[#[trigger] r[a] as int])
            ==> r[a] < r[b]
}

/// Inserting entry `i`, later than every listed one, right after the last
/// entry allowed before it keeps the listing ordered.
proof fn lemma_insert_ordered(items: Seq<FileItem>, r: Seq<usize>, i: usize, p: int)
    requires
        ordered_listing(items, r),
        i < items.len(),
        0 <= p <= r.len(),
        forall|k: int| 0 <= k < r.len() ==> #[trigger] r[k] < i,
        forall|q: int| 0 <= q < p ==> listed_before(items[#[trigger] r[q] as int], items[i as int]),
        p < r.len() ==> !listed_before(items[r[p] as int], items[i as int]),
    ensures
        ordered_listing(items, r.insert(p, i)),
{
    let x = items[i as int];
    let n = r.insert(p, i);
    if p < r.len() {
        lemma_listed_total(items[r[p] as int], x);
    }
    assert forall|q: int| p < q < r.len() implies listed_before(x, items[#[trigger] r[q] as int])
        && !listed_before(items[r[q] as int], x) by {
        assert(listed_before(items[r[p] as int], items[r[q] as int]));
        lemma_listed_trans(x, items[r[p] as int], items[r[q] as int]);
        if listed_before(items[r[q] as int], x) {
            lemma_listed_trans(items[r[p] as int], items[r[q] as int], x);
        }
    }
    assert forall|a: int, b: int| 0 <= a < b < n.len() implies #[trigger] n[a] != #[trigger] n[b]
        && listed_before(items[n[a] as int], items[n[b] as int]) && (listed_before(
        items[n[b] as int],
        items[n[a] as int],
    ) ==> n[a] < n[b]) by {
        if b < p {
            assert(n[a] == r[a] && n[b] == r[b]);
        } else if b == p {
            assert(n[a] == r[a]);
        } else if a == p {
            assert(n[b] == r[b - 1]);
        } else if a < p {
            assert(n[a] == r[a] && n[b] == r[b - 1]);
        } else {
            assert(n[a] == r[a - 1] && n[b] == r[b - 1]);
        }
    }
    assert forall|k: int| 0 <= k < n.len() implies #[trigger] n[k] < items.len() by {
        if k < p {
            assert(n[k] == r[k]);
        } else if k > p {
            assert(n[k] == r[k - 1]);
        }
    }
}

/// Adds entry `i`, later than every listed one, to an ordered listing.
fn insert_listed(items: &Vec<FileItem>, keys: &Vec<Vec<char>>, r: &mut Vec<usize>, i: usize)
    requires
        i < items@.len(),
        keys@.len() == items@.len(),
        forall|j: int| 0 <= j < items@.len() ==> (#[trigger] keys@[j])@ == lowercase_of(items@[j].name@),
        ordered_listing(items@, old(r)@),
        forall|k: int| 0 <= k < old(r)@.len() ==> #[trigger] old(r)@[k] < i,
    ensures
        ordered_listing(items@, final(r)@),
        forall|k: int| 0 <= k < final(r)@.len() ==> #[trigger] final(r)@[k] <= i,
        forall|j: usize| #[trigger] final(r)@.contains(j) <==> (old(r)@.contains(j) || j == i),
{
    let mut p: usize = 0;
    while p < r.len() && (items[r[p]].is_dir && !items[i].is_dir || items[r[p]].is_dir
        == items[i].is_dir && chars_le(&keys[r[p]], &keys[i]))
        invariant
            p <= r@.len(),
            r@ == old(r)@,
            i < items@.len(),
            keys@.len() == items@.len(),
            forall|j: int| 0 <= j < items@.len() ==> (#[trigger] keys@[j])@ == lowercase_of(items@[j].name@),
            ordered_listing(items@, r@),
            forall|q: int| 0 <= q < p ==> listed_before(items@[#[trigger] r@[q] as int], items@[i as int]),
        decreases r@.len() - p,
    {
        p = p + 1;
    }
    proof {
        lemma_insert_ordered(items@, r@, i, p as int);
    }
    r.insert(p, i);
    proof {
        let before = old(r)@;
        assert forall|k: int| 0 <= k < r@.len() implies #[trigger] r@[k] <= i by {
            if k < p {
                assert(r@[k] == before[k]);
            } else if k > p {
                assert(r@[k] == before[k - 1]);
            }
        }
        assert forall|j: usize| #[trigger] r@.contains(j) <==> (before.contains(j) || j == i) by {
            if before.contains(j) {
                let w = choose|w: int| 0 <= w < before.len() && before[w] == j;
                if w < p {
                    assert(r@[w] == j);
                } else {
                    assert(r@[w + 1] == j);
                }
            }
            if r@.contains(j) {
                let w = choose|w: int| 0 <= w < r@.len() && r@[w] == j;
                if w < p {
                    assert(before[w] == j);
                } else if w > p {
                    assert(before[w - 1] == j);
                }
            }
            if j == i {
                assert(r@[p as int] == i);
            }
        }
    }
}

/// The indices of the entries to list, in the order they are listed:
/// hidden ones only if `show_hidden`, directories first, then by name in
/// lower case; entries that tie keep their order.
pub fn listing_order(items: &Vec<FileItem>, show_hidden: bool) -> (r: Vec<usize>)
    ensures
        ordered_listing(items@, r@),
        forall|i: int|
            0 <= i < items@.len() ==> (shown(#[trigger] items@[i], show_hidden) <==> r@.contains(
                i as usize,
            )),
{
    let mut keys: Vec<Vec<char>> = Vec::new();
    let mut k: usize = 0;
    while k < items.len()
        invariant
            k <= items@.len(),
            keys@.len() == k,
            forall|j: int| 0 <= j < k ==> (#[trigger] keys@[j])@ == lowercase_of(items@[j].name@),
        decreases items@.len() - k,
    {
        let lower = lowercase(items[k].name.as_str());
        keys.push(chars_of(lower.as_str()));
        k = k + 1;
    }
    let mut r: Vec<usize> = Vec::new();
    let mut i: usize = 0;
    while i < items.len()
        invariant
            i <= items@.len(),
            keys@.len() == items@.len(),
            forall|j: int| 0 <= j < items@.len() ==> (#[trigger] keys@[j])@ == lowercase_of(items@[j].name@),
            ordered_listing(items@, r@),
            forall|k: int| 0 <= k < r@.len() ==> #[trigger] r@[k] < i,
            forall|j: int|
                0 <= j < items@.len() ==> (r@.contains(j as usize) <==> (j < i && shown(
                    #[trigger] items@[j],
                    show_hidden,
                ))),
        decreases items@.len() - i,
    {
        if show_hidden || !items[i].is_hidden {
            insert_listed(items, &keys, &mut r, i);
        }
        proof {
            assert forall|j: int| 0 <= j < items@.len() implies (r@.contains(j as usize) <==> (j
                < i + 1 && shown(#[trigger] items@[j], show_hidden))) by {
                if j == i && !shown(items@[j], show_hidden) && r@.contains(j as usize) {
                    let w = choose|w: int| 0 <= w < r@.len() && r@[w] == j as usize;
                }
            }
        }
        i = i + 1;
    }
    r
}

/// The entries of the directory on display, and the selected one.
pub struct Listing {
    items: Vec<FileItem>,
    selected: usize,
}

impl Listing {
    /// The listed entries.
    pub closed spec fn entries(&self) -> Seq<FileItem> {
        self.items@
    }

    /// Index of the selected entry.
    pub closed spec fn selection(&self) -> nat {
        self.selected as nat
    }

    /// The selection names an entry, or is 0 when there is none.
    pub open spec fn wf(&self) -> bool {
        if self.entries().len() == 0 {
            self.selection() == 0
        } else {
            self.selection() < self.entries().len()
        }
    }

    /// `items` listed as given, the first one selected.
    pub fn new(items: Vec<FileItem>) -> (r: Listing)
        ensures
            r.wf(),
            r.entries() == items@,
            r.selection() == 0,
    {
        Listing { items, selected: 0 }
    }

    pub fn items(&self) -> (r: &Vec<FileItem>)
        ensures
            r@ == self.entries(),
    {
        &self.items
    }

    pub fn selected_index(&self) -> (r: usize)
        ensures
            r == self.selection(),
    {
        self.selected
    }

    /// The selected entry, if the listing is not empty.
    pub fn selected(&self) -> (r: Option<&FileItem>)
        requires
            self.wf(),
        ensures
            r == if self.entries().len() > 0 {
                Some(&self.entries()[self.selection() as int])
            } else {
                None::<&FileItem>
            },
    {
        if self.selected < self.items.len() {
            Some(&self.items[self.selected])
        } else {
            None
        }
    }

    /// Selects the entry above, if there is one.
    pub fn navigate_up(&mut self)
        requires
            old(self).wf(),
        ensures
            final(self).wf(),
            final(self).entries() == old(self).entries(),
            final(self).selection() == if old(self).selection() > 0 {
                (old(self).selection() - 1) as nat
            } else {
                0
            },
    {
        if self.selected > 0 {
            self.selected = self.selected - 1;
        }
    }

    /// Selects the entry below, if there is one.
    pub fn navigate_down(&mut self)
        requires
            old(self).wf(),
        ensures
            final(self).wf(),
            final(self).entries() == old(self).entries(),
            final(self).selection() == if old(self).selection() + 1 < old(self).entries().len() {
                old(self).selection() + 1
            } else {
                old(self).selection()
            },
    {
        if self.selected < self.items.len() && self.items.len() - self.selected > 1 {
            self.selected = self.selected + 1;
        }
    }
}

/// The entry that leads to the parent directory.
pub fn parent_entry() -> (r: FileItem)
    ensures
        r.name@ == ".."@,
        r.is_dir,
        r.size == 0,
        r.modified_secs == Some(0u64),
        r.permissions@ == "drwxrwxrwx"@,
        !r.is_hidden,
        r.extension.is_none(),
{
    FileItem {
        name: "..".to_string(),
        is_dir: true,
        size: 0,
        modified_secs: Some(0),
        permissions: "drwxrwxrwx".to_string(),
        is_hidden: false,
        extension: None,
    }
}

} // verus!
