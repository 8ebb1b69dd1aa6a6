//! Rendering a difference result as text, CSV or JSON, and choosing the
//! format from a destination path.

use vstd::prelude::*;

use crate::chars::chars_of;

verus! {

/// std::io::Error, carried opaque in `ExportError::IoError`.
#[verifier::external_type_specification]
#[verifier::external_body]
pub struct ExIoError(std::io::Error);

/// serde_json::Error, as serde_json::to_string returns it; carried opaque in
/// `ExportError::JsonError`.
#[verifier::external_type_specification]
#[verifier::external_body]
pub struct ExJsonError(serde_json::Error);

/// The formats a result can be exported in.
#[derive(Debug, Clone, Copy, PartialEq, Eq, Structural)]
pub enum ExportType {
    Text,
    Csv,
    Json,
}

impl Default for ExportType {
    fn default() -> (r: ExportType)
        ensures
            r == ExportType::Text,
    {
        ExportType::Text
    }
}

/// Why an export failed.
#[derive(Debug)]
pub enum ExportError {
    /// The destination could not be created or written.
    IoError(std::io::Error),
    /// The lines could not be encoded as JSON.
    JsonError(serde_json::Error),
}

/// The index of the last `c` in `s`, or -1 where there is none.
pub open spec fn last_index_of(s: Seq<char>, c: char) -> int
    decreases s.len(),
{
    if s.len() == 0 {
        -1
    } else if s.last() == c {
        s.len() - 1
    } else {
        last_index_of(s.drop_last(), c)
    }
}

/// The last component of a path: what follows its last `/`.
pub open spec fn file_name(path: Seq<char>) -> Seq<char> {
    path.subrange(last_index_of(path, '/') + 1, path.len() as int)
}

/// What follows the last `.` of the file name, where that `.` is not its
/// first character.
pub open spec fn extension(path: Seq<char>) -> Option<Seq<char>> {
    let name = file_name(path);
    let dot = last_index_of(name, '.');
    if dot <= 0 {
        None
    } else {
        Some(name.subrange(dot + 1, name.len() as int))
    }
}

/// `c` is the lower-case letter `lower` in either case.
pub open spec fn same_letter(c: char, lower: char) -> bool {
    c == lower || c as u32 == (lower as u32) - 32
}

/// `ext` spells the lower-case `word`, ignoring the case of its letters.
pub open spec fn spells(ext: Seq<char>, word: Seq<char>) -> bool {
    &&& ext.len() == word.len()
    &&& forall|i: int| 0 <= i < ext.len() ==> same_letter(ext[i], word[i])
}

/// The format that a destination's extension calls for: `csv` and `json`, in
/// any case, give their formats; `txt`, any other extension, or none give text.
pub open spec fn format_for_path(path: Seq<char>) -> ExportType {
    match extension(path) {
        Some(ext) => if spells(ext, seq!['c', 's', 'v']) {
            ExportType::Csv
        } else if spells(ext, seq!['j', 's', 'o', 'n']) {
            ExportType::Json
        } else {
            ExportType::Text
        },
        None => ExportType::Text,
    }
}

proof fn lemma_last_index_of(s: Seq<char>, c: char, k: int)
    requires
        -1 <= k < s.len(),
        k >= 0 ==> s[k] == c,
        forall|j: int| k < j < s.len() ==> s[j] != c,
    ensures
        last_index_of(s, c) == k,
    decreases s.len(),
{
    if s.len() > 0 && k < s.len() - 1 {
        lemma_last_index_of(s.drop_last(), c, k);
    }
}

/// The index of the last `c` in `cs` at or after `start`.
fn find_last(cs: &Vec<char>, start: usize, c: char) -> (r: Option<usize>)
    requires
        start <= cs.len(),
    ensures
        r matches Some(k) ==> start <= k < cs.len() && cs[k as int] == c,
        forall|j: int|
            #![trigger cs[j]]
            start <= j < cs.len() && (r matches Some(k) ==> k < j) ==> cs[j] != c,
{
    let mut i: usize = cs.len();
    while i > start
        invariant
            start <= i <= cs.len(),
            forall|j: int| i <= j < cs.len() ==> cs[j] != c,
        decreases i,
    {
        if cs[i - 1] == c {
            return Some(i - 1);
        }
        i -= 1;
    }
    None
}

/// Whether the characters of `cs` from `start` on spell `word`, whose
/// characters are lower-case letters.
fn spells_from(cs: &Vec<char>, start: usize, word: &[char]) -> (r: bool)
    requires
        start <= cs.len(),
    ensures
        r == spells(cs@.subrange(start as int, cs.len() as int), word@),
{
    let ghost ext = cs@.subrange(start as int, cs.len() as int);
    if cs.len() - start != word.len() {
        return false;
    }
    let mut i: usize = 0;
    while i < word.len()
        invariant
            i <= word.len(),
            start + word.len() == cs.len(),
            ext.len() == word@.len(),
            ext == cs@.subrange(start as int, cs.len() as int),
            forall|j: int| 0 <= j < i ==> same_letter(ext[j], word@[j]),
        decreases word.len() - i,
    {
        let c = cs[start + i];
        let w = word[i];
        assert(ext[i as int] == c);
        if !(c == w || (w as u32 >= 32 && c as u32 == (w as u32) - 32)) {
            return false;
        }
        i += 1;
    }
    true
}

impl ExportType {
    /// The format for a destination path, by its extension.
    pub fn from_path(path: &str) -> (r: ExportType)
        ensures
            r == format_for_path(path@),
    {
        let cs = chars_of(path);
        let ghost p = cs@;
        let start: usize = match find_last(&cs, 0, '/') {
            Some(k) => k + 1,
            None => 0,
        };
        proof {
            lemma_last_index_of(p, '/', start - 1);
        }
        let ghost name = file_name(p);
        assert(name == p.subrange(start as int, p.len() as int));
        match find_last(&cs, start, '.') {
            Some(d) => {
                proof {
                    assert(name[d - start] == '.');
                    lemma_last_index_of(name, '.', d - start);
                }
                if d == start {
                    return ExportType::Text;
                }
                assert(name.subrange(d - start + 1, name.len() as int) =~= p.subrange(
                    d + 1,
                    p.len() as int,
                ));
                let csv = ['c', 's', 'v'];
                let json = ['j', 's', 'o', 'n'];
                assert(csv@ == seq!['c', 's', 'v']);
                assert(json@ == seq!['j', 's', 'o', 'n']);
                if spells_from(&cs, d + 1, &csv) {
                    ExportType::Csv
                } else if spells_from(&cs, d + 1, &json) {
                    ExportType::Json
                } else {
                    ExportType::Text
                }
            },
            None => {
                proof {
                    lemma_last_index_of(name, '.', -1);
                }
                ExportType::Text
            },
        }
    }
}

/// Each line followed by a newline.
pub open spec fn text_of(lines: Seq<Seq<char>>) -> Seq<char>
    decreases lines.len(),
{
    if lines.len() == 0 {
        Seq::empty()
    } else {
        text_of(lines.drop_last()) + lines.last() + seq!['\n']
    }
}

/// Each line between double quotes, followed by a newline; nothing inside a
/// line is escaped.
pub open spec fn csv_of(lines: Seq<Seq<char>>) -> Seq<char>
    decreases lines.len(),
{
    if lines.len() == 0 {
        Seq::empty()
    } else {
        csv_of(lines.drop_last()) + seq!['"'] + lines.last() + seq!['"', '\n']
    }
}

/// The lower-case hexadecimal digit of `d`, for `d < 16`.
pub open spec fn hex_digit(d: u32) -> char {
    if d < 10 {
        ((d + 48) as u8) as char
    } else {
        ((d + 87) as u8) as char
    }
}

/// How one character stands inside a JSON string: quote, backslash and the
/// control characters are escaped, a control character without a short
/// escape as `\u00` and two lower-case hexadecimal digits.
pub open spec fn json_escaped_char(c: char) -> Seq<char> {
    if c == '"' {
        seq!['\\', '"']
    } else if c == '\\' {
        seq!['\\', '\\']
    } else if c == '\x08' {
        seq!['\\', 'b']
    } else if c == '\t' {
        seq!['\\', 't']
    } else if c == '\n' {
        seq!['\\', 'n']
    } else if c == '\x0c' {
        seq!['\\', 'f']
    } else if c == '\r' {
        seq!['\\', 'r']
    } else if (c as u32) < 0x20 {
        seq!['\\', 'u', '0', '0', hex_digit((c as u32) / 16), hex_digit((c as u32) % 16)]
    } else {
        seq![c]
    }
}

/// The characters of `s`, each escaped for a JSON string.
pub open spec fn json_escaped(s: Seq<char>) -> Seq<char>
    decreases s.len(),
{
    if s.len() == 0 {
        Seq::empty()
    } else {
        json_escaped(s.drop_last()) + json_escaped_char(s.last())
    }
}

/// `s` as a JSON string literal.
pub open spec fn json_string(s: Seq<char>) -> Seq<char> {
    seq!['"'] + json_escaped(s) + seq!['"']
}

/// The JSON string literals of `lines`, separated by commas.
pub open spec fn json_items(lines: Seq<Seq<char>>) -> Seq<char>
    decreases lines.len(),
{
    if lines.len() == 0 {
        Seq::empty()
    } else if lines.len() == 1 {
        json_string(lines[0])
    } else {
        json_items(lines.drop_last()) + seq![','] + json_string(lines.last())
    }
}

/// `lines` as a compact JSON array of strings.
pub open spec fn json_of(lines: Seq<Seq<char>>) -> Seq<char> {
    seq!['['] + json_items(lines) + seq![']']
}

/// What an export of `lines` in `format` writes.
pub open spec fn rendered(lines: Seq<Seq<char>>, format: ExportType) -> Seq<char> {
    match format {
        ExportType::Text => text_of(lines),
        ExportType::Csv => csv_of(lines),
        ExportType::Json => json_of(lines),
    }
}

/// Relies on serde_json::to_string: a sequence of strings is written as a
/// compact array (no spaces), each string quoted with serde_json's escapes.
#[verifier::external_body]
fn encode_json(lines: &Vec<String>) -> (r: Result<String, serde_json::Error>)
    ensures
        r matches Ok(s) ==> s@ == json_of(lines.deep_view()),
{
    serde_json::to_string(lines)
}

/// The text that exporting `lines` in `format` writes.
fn render(lines: &Vec<String>, format: ExportType) -> (r: Result<String, ExportError>)
    ensures
        r matches Ok(s) ==> s@ == rendered(lines.deep_view(), format),
        r matches Err(e) ==> format == ExportType::Json && e is JsonError,
        format != ExportType::Json ==> r is Ok,
{
    let ghost v = lines.deep_view();
    match format {
        ExportType::Text => {
            let mut data = String::new();
            let mut i: usize = 0;
            while i < lines.len()
                invariant
                    i <= lines.len(),
                    v == lines.deep_view(),
                    data@ == text_of(v.take(i as int)),
                decreases lines.len() - i,
            {
                proof {
                    reveal_strlit("\n");
                }
                assert(v.take(i + 1).drop_last() == v.take(i as int));
                data.append(lines[i].as_str());
                data.append("\n");
                i += 1;
            }
            assert(v.take(v.len() as int) == v);
            Ok(data)
        },
        ExportType::Csv => {
            let mut data = String::new();
            let mut i: usize = 0;
            while i < lines.len()
                invariant
                    i <= lines.len(),
                    v == lines.deep_view(),
                    data@ == csv_of(v.take(i as int)),
                decreases lines.len() - i,
            {
                proof {
                    reveal_strlit("\"");
                    reveal_strlit("\"\n");
                }
                assert(v.take(i + 1).drop_last() == v.take(i as int));
                data.append("\"");
                data.append(lines[i].as_str());
                data.append("\"\n");
                i += 1;
            }
            assert(v.take(v.len() as int) == v);
            Ok(data)
        },
        ExportType::Json => match encode_json(lines) {
            Ok(s) => Ok(s),
            Err(e) => Err(ExportError::JsonError(e)),
        },
    }
}

/// A result to export, its format and its destination.
#[derive(Debug, Clone)]
pub struct VectorExporter<T> {
    pub vec: Vec<T>,
    pub export_type: ExportType,
    pub export_path: String,
}

/// Exports a sequence of lines.
pub trait IVectorExporter<T>: Sized {
    /// The lines held.
    spec fn held(&self) -> Seq<T>;

    /// The format to export in.
    spec fn format(&self) -> ExportType;

    /// Where the export goes.
    spec fn destination(&self) -> Seq<char>;

    /// What an export writes to the destination.
    spec fn written(&self) -> Seq<char>;

    fn new(vec: Vec<T>, export_type: ExportType, export_path: &str) -> (r: Self)
        ensures
            r.held() == vec@,
            r.format() == export_type,
            r.destination() == export_path@,
    ;

    /// The text to write to the destination. Only a JSON export can fail,
    /// and then only for want of an encoding.
    fn contents(&self) -> (r: Result<String, ExportError>)
        ensures
            r matches Ok(s) ==> s@ == self.written(),
            r matches Err(e) ==> self.format() == ExportType::Json && e is JsonError,
            self.format() != ExportType::Json ==> r is Ok,
    ;
}

impl IVectorExporter<String> for VectorExporter<String> {
    open spec fn held(&self) -> Seq<String> {
        self.vec@
    }

    open spec fn format(&self) -> ExportType {
        self.export_type
    }

    open spec fn destination(&self) -> Seq<char> {
        self.export_path@
    }

    open spec fn written(&self) -> Seq<char> {
        rendered(self.vec.deep_view(), self.export_type)
    }

    fn new(vec: Vec<String>, export_type: ExportType, export_path: &str) -> (r: VectorExporter<String>) {
        VectorExporter { vec, export_type, export_path: export_path.to_owned() }
    }

    fn contents(&self) -> (r: Result<String, ExportError>) {
        render(&self.vec, self.export_type)
    }
}

} // verus!
