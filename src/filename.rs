use vstd::prelude::*;
use vstd::string::*;
use vstd::utf8::encode_utf8;

verus! {

/// The longest accepted filename, in bytes of UTF-8.
pub const MAX_FILENAME_BYTES: usize = 255;

/// Why a filename was refused, as a mathematical value.
pub enum FilenameFault {
    Empty,
    PathSeparator,
    IllegalChar(char),
    TooLong,
    Reserved(Seq<char>),
    EdgeDotOrSpace,
}

/// Why a filename was refused.
#[derive(Debug, Clone, PartialEq, Eq)]
pub enum FilenameError {
    /// The name is the empty string.
    Empty,
    /// The name holds `/` or `\`.
    PathSeparator,
    /// The name holds one of `< > : " | ? *`: the first of them, in that order, that it holds.
    IllegalChar(char),
    /// The name is longer than 255 bytes of UTF-8.
    TooLong,
    /// The part before the first `.` names a device (`CON`, `COM1`, ...), in any case.
    Reserved(String),
    /// The name starts or ends with `.` or a space.
    EdgeDotOrSpace,
}

impl View for FilenameError {
    type V = FilenameFault;

    open spec fn view(&self) -> FilenameFault {
        match self {
            FilenameError::Empty => FilenameFault::Empty,
            FilenameError::PathSeparator => FilenameFault::PathSeparator,
            FilenameError::IllegalChar(c) => FilenameFault::IllegalChar(*c),
            FilenameError::TooLong => FilenameFault::TooLong,
            FilenameError::Reserved(stem) => FilenameFault::Reserved(stem@),
            FilenameError::EdgeDotOrSpace => FilenameFault::EdgeDotOrSpace,
        }
    }
}

/// The code of `c` with ASCII lower-case letters taken to upper case.
pub open spec fn ascii_upper(c: char) -> int {
    if 97 <= (c as int) && (c as int) <= 122 {
        c as int - 32
    } else {
        c as int
    }
}

/// `s` spells `name`, ignoring the case of ASCII letters.
pub open spec fn spells_ci(s: Seq<char>, name: Seq<char>) -> bool {
    &&& s.len() == name.len()
    &&& forall|i: int| 0 <= i < s.len() ==> ascii_upper(#[trigger] s[i]) == ascii_upper(name[i])
}

/// A device name of three letters: `CON`, `PRN`, `AUX` or `NUL`, in any case.
pub open spec fn is_device3(s: Seq<char>) -> bool {
    ||| spells_ci(s, seq!['C', 'O', 'N'])
    ||| spells_ci(s, seq!['P', 'R', 'N'])
    ||| spells_ci(s, seq!['A', 'U', 'X'])
    ||| spells_ci(s, seq!['N', 'U', 'L'])
}

/// A numbered device name: `COM1` to `COM9` or `LPT1` to `LPT9`, in any case.
pub open spec fn is_device4(s: Seq<char>) -> bool {
    &&& s.len() == 4
    &&& spells_ci(s.take(3), seq!['C', 'O', 'M']) || spells_ci(s.take(3), seq!['L', 'P', 'T'])
    &&& '1' <= s[3] && s[3] <= '9'
}

/// A reserved device name, in any case.
pub open spec fn is_device_name(s: Seq<char>) -> bool {
    is_device3(s) || is_device4(s)
}

/// The part of `s` before its first `.`, if `s` has no `.` within its first `k` characters
/// and a `.` or its end right after them.
pub open spec fn stem_ends_at(s: Seq<char>, k: int) -> bool {
    &&& 0 <= k <= s.len()
    &&& k == s.len() || s[k] == '.'
    &&& forall|i: int| 0 <= i < k ==> s[i] != '.'
}

/// The length of the part of `s` before its first `.` when that part is a device name; else 0.
/// Device names hold no `.`, so the stem of `s` is a device name exactly when this is not 0.
pub open spec fn device_stem_len(s: Seq<char>) -> int {
    if stem_ends_at(s, 3) && is_device3(s.take(3)) {
        3
    } else if stem_ends_at(s, 4) && is_device4(s.take(4)) {
        4
    } else {
        0
    }
}

pub open spec fn has_path_separator(s: Seq<char>) -> bool {
    s.contains('/') || s.contains('\\')
}

/// The first of `< > : " | ? *`, in that order, that `s` holds.
pub open spec fn first_illegal_char(s: Seq<char>) -> Option<char> {
    if s.contains('<') {
        Some('<')
    } else if s.contains('>') {
        Some('>')
    } else if s.contains(':') {
        Some(':')
    } else if s.contains('"') {
        Some('"')
    } else if s.contains('|') {
        Some('|')
    } else if s.contains('?') {
        Some('?')
    } else if s.contains('*') {
        Some('*')
    } else {
        None
    }
}

pub open spec fn is_dot_or_space(c: char) -> bool {
    c == '.' || c == ' '
}

pub open spec fn has_edge_dot_or_space(s: Seq<char>) -> bool {
    s.len() > 0 && (is_dot_or_space(s[0]) || is_dot_or_space(s.last()))
}

/// The first rule, in the order the rules are checked, that the filename `s` breaks.
pub open spec fn filename_fault(s: Seq<char>) -> Option<FilenameFault> {
    if s.len() == 0 {
        Some(FilenameFault::Empty)
    } else if has_path_separator(s) {
        Some(FilenameFault::PathSeparator)
    } else if first_illegal_char(s) is Some {
        Some(FilenameFault::IllegalChar(first_illegal_char(s)->0))
    } else if encode_utf8(s).len() > MAX_FILENAME_BYTES {
        Some(FilenameFault::TooLong)
    } else if device_stem_len(s) != 0 {
        Some(FilenameFault::Reserved(s.take(device_stem_len(s))))
    } else if has_edge_dot_or_space(s) {
        Some(FilenameFault::EdgeDotOrSpace)
    } else {
        None
    }
}

/// The message reported for a fault.
pub open spec fn fault_message(f: FilenameFault) -> Seq<char> {
    match f {
        FilenameFault::Empty => "文件名不能为空"@,
        FilenameFault::PathSeparator => "文件名不能包含路径分隔符"@,
        FilenameFault::IllegalChar(c) => "文件名不能包含非法字符: "@ + seq![c],
        FilenameFault::TooLong => "文件名过长（最大 255 个字符）"@,
        FilenameFault::Reserved(stem) => "文件名 '"@ + stem + "' 是系统保留名称"@,
        FilenameFault::EdgeDotOrSpace => "文件名不能以点或空格开头或结尾"@,
    }
}

/// The lowercase equivalent of `s`, as `str::to_lowercase` gives it.
pub uninterp spec fn lower_of(s: Seq<char>) -> Seq<char>;

/// `s` ends with `suffix`.
pub open spec fn ends_with(s: Seq<char>, suffix: Seq<char>) -> bool {
    s.len() >= suffix.len() && s.subrange(s.len() - suffix.len(), s.len() as int) == suffix
}

/// The lowercased name ends with `.` and the lowercased extension.
pub open spec fn has_extension_lowered(lower_name: Seq<char>, lower_ext: Seq<char>) -> bool {
    ends_with(lower_name, seq!['.'] + lower_ext)
}

/// `f` ends with `.` and then `e`, compared in lowercase.
pub open spec fn has_extension(f: Seq<char>, e: Seq<char>) -> bool {
    has_extension_lowered(lower_of(f), lower_of(e))
}

/// `f` itself if it already has the extension `e`; else `f`, a `.` and `e`.
pub open spec fn with_extension(f: Seq<char>, e: Seq<char>) -> Seq<char> {
    if has_extension(f, e) {
        f
    } else {
        f + seq!['.'] + e
    }
}

/// The characters of `s`, in order.
pub fn chars_of(s: &str) -> (r: Vec<char>)
    ensures
        r@ == s@,
{
    let n = s.unicode_len();
    let mut v: Vec<char> = Vec::new();
    let mut i: usize = 0;
    while i < n
        invariant
            n == s@.len(),
            i <= n,
            v@ == s@.take(i as int),
        decreases n - i,
    {
        v.push(s.get_char(i));
        i = i + 1;
        assert(v@ =~= s@.take(i as int));
    }
    assert(v@ =~= s@);
    v
}

fn upper_code(c: char) -> (r: u32)
    ensures
        r as int == ascii_upper(c),
{
    let x = c as u32;
    if 97 <= x && x <= 122 {
        x - 32
    } else {
        x
    }
}

fn contains_char(v: &Vec<char>, c: char) -> (r: bool)
    ensures
        r == v@.contains(c),
{
    let mut i: usize = 0;
    while i < v.len()
        invariant
            i <= v.len(),
            forall|j: int| 0 <= j < i ==> v@[j] != c,
        decreases v.len() - i,
    {
        if v[i] == c {
            return true;
        }
        i = i + 1;
    }
    false
}

/// Whether `v[from..from + name.len()]` spells `name`, ignoring the case of ASCII letters.
fn spells_at(v: &Vec<char>, from: usize, name: &[char]) -> (r: bool)
    requires
        from + name@.len() <= v.len(),
    ensures
        r == spells_ci(v@.subrange(from as int, from + name@.len()), name@),
{
    let mut i: usize = 0;
    while i < name.len()
        invariant
            from + name@.len() <= v@.len(),
            i <= name@.len(),
            forall|j: int| 0 <= j < i ==> ascii_upper(v@[from + j]) == ascii_upper(name@[j]),
        decreases name.len() - i,
    {
        assert(from + i < v.len());
        if upper_code(v[from + i]) != upper_code(name[i]) {
            proof {
                let sub = v@.subrange(from as int, from + name@.len());
                assert(sub[i as int] == v@[from + i]);
            }
            return false;
        }
        i = i + 1;
    }
    let ghost sub = v@.subrange(from as int, from + name@.len());
    assert forall|j: int| 0 <= j < sub.len() implies ascii_upper(#[trigger] sub[j]) == ascii_upper(name@[j]) by {
        assert(sub[j] == v@[from + j]);
    }
    true
}

fn ends_stem_at(v: &Vec<char>, k: usize) -> (r: bool)
    ensures
        r == stem_ends_at(v@, k as int),
{
    if k > v.len() {
        return false;
    }
    if k < v.len() && v[k] != '.' {
        return false;
    }
    let mut i: usize = 0;
    while i < k
        invariant
            k <= v@.len(),
            i <= k,
            forall|j: int| 0 <= j < i ==> v@[j] != '.',
        decreases k - i,
    {
        if v[i] == '.' {
            return false;
        }
        i = i + 1;
    }
    true
}

fn is_device3_at_start(v: &Vec<char>) -> (r: bool)
    requires
        v@.len() >= 3,
    ensures
        r == is_device3(v@.take(3)),
{
    assert(v@.take(3) =~= v@.subrange(0, 3));
    let con = ['C', 'O', 'N'];
    let prn = ['P', 'R', 'N'];
    let aux = ['A', 'U', 'X'];
    let nul = ['N', 'U', 'L'];
    assert(con@ =~= seq!['C', 'O', 'N']);
    assert(prn@ =~= seq!['P', 'R', 'N']);
    assert(aux@ =~= seq!['A', 'U', 'X']);
    assert(nul@ =~= seq!['N', 'U', 'L']);
    spells_at(v, 0, &con) || spells_at(v, 0, &prn) || spells_at(v, 0, &aux) || spells_at(v, 0, &nul)
}

fn is_device4_at_start(v: &Vec<char>) -> (r: bool)
    requires
        v@.len() >= 4,
    ensures
        r == is_device4(v@.take(4)),
{
    let ghost s = v@.take(4);
    assert(s.take(3) =~= v@.subrange(0, 3));
    let com = ['C', 'O', 'M'];
    let lpt = ['L', 'P', 'T'];
    assert(com@ =~= seq!['C', 'O', 'M']);
    assert(lpt@ =~= seq!['L', 'P', 'T']);
    (spells_at(v, 0, &com) || spells_at(v, 0, &lpt)) && '1' <= v[3] && v[3] <= '9'
}

fn device_stem_length(v: &Vec<char>) -> (r: usize)
    ensures
        r as int == device_stem_len(v@),
{
    if ends_stem_at(v, 3) && is_device3_at_start(v) {
        3
    } else if ends_stem_at(v, 4) && is_device4_at_start(v) {
        4
    } else {
        0
    }
}

/// Relies on `char::to_string` (through `Display`): a string of that one character.
#[verifier::external_body]
fn char_text(c: char) -> (r: String)
    ensures
        r@ == seq![c],
{
    c.to_string()
}

impl FilenameError {
    /// A message for a person.
    pub fn message(&self) -> (r: String)
        ensures
            r@ == fault_message(self@),
    {
        match self {
            FilenameError::Empty => String::from_str("文件名不能为空"),
            FilenameError::PathSeparator => String::from_str("文件名不能包含路径分隔符"),
            FilenameError::IllegalChar(c) => {
                let text = char_text(*c);
                String::from_str("文件名不能包含非法字符: ").concat(text.as_str())
            },
            FilenameError::TooLong => String::from_str("文件名过长（最大 255 个字符）"),
            FilenameError::Reserved(stem) => String::from_str("文件名 '").concat(
                stem.as_str(),
            ).concat("' 是系统保留名称"),
            FilenameError::EdgeDotOrSpace => String::from_str("文件名不能以点或空格开头或结尾"),
        }
    }
}

/// Checks a filename against the rules, in order: not empty, no path separator, none of
/// `< > : " | ? *`, at most 255 bytes, no device name before the first `.`, no `.` or space
/// at either end.
pub fn check_filename(name: &str) -> (r: Result<(), FilenameError>)
    ensures
        match r {
            Ok(_) => filename_fault(name@) is None,
            Err(e) => filename_fault(name@) == Some(e@),
        },
{
    let v = chars_of(name);
    if v.len() == 0 {
        return Err(FilenameError::Empty);
    }
    if contains_char(&v, '/') || contains_char(&v, '\\') {
        return Err(FilenameError::PathSeparator);
    }
    let order = ['<', '>', ':', '"', '|', '?', '*'];
    if contains_char(&v, order[0]) {
        return Err(FilenameError::IllegalChar(order[0]));
    }
    if contains_char(&v, order[1]) {
        return Err(FilenameError::IllegalChar(order[1]));
    }
    if contains_char(&v, order[2]) {
        return Err(FilenameError::IllegalChar(order[2]));
    }
    if contains_char(&v, order[3]) {
        return Err(FilenameError::IllegalChar(order[3]));
    }
    if contains_char(&v, order[4]) {
        return Err(FilenameError::IllegalChar(order[4]));
    }
    if contains_char(&v, order[5]) {
        return Err(FilenameError::IllegalChar(order[5]));
    }
    if contains_char(&v, order[6]) {
        return Err(FilenameError::IllegalChar(order[6]));
    }
    if name.as_bytes().len() > MAX_FILENAME_BYTES {
        return Err(FilenameError::TooLong);
    }
    let stem_len = device_stem_length(&v);
    if stem_len != 0 {
        let stem = String::from_str(name.substring_char(0, stem_len));
        assert(name@.subrange(0, stem_len as int) =~= name@.take(stem_len as int));
        return Err(FilenameError::Reserved(stem));
    }
    if v[0] == '.' || v[0] == ' ' || v[v.len() - 1] == '.' || v[v.len() - 1] == ' ' {
        return Err(FilenameError::EdgeDotOrSpace);
    }
    Ok(())
}

/// Checks that `filename` is safe to offer as the name of a downloaded file; on refusal,
/// the reason as a message.
pub fn validate_filename(filename: &str) -> (r: Result<(), String>)
    ensures
        r is Ok <==> filename_fault(filename@) is None,
        r is Err ==> r->Err_0@ == fault_message(filename_fault(filename@)->0),
{
    match check_filename(filename) {
        Ok(()) => Ok(()),
        Err(e) => Err(e.message()),
    }
}

/// Relies on `str::to_lowercase`: the lowercase equivalent of `s`, which depends on its
/// characters alone.
#[verifier::external_body]
fn lowercase(s: &str) -> (r: String)
    ensures
        r@ == lower_of(s@),
{
    s.to_lowercase()
}

/// Whether the lowercased name `lower_name` ends with `.` and the lowercased extension
/// `lower_ext`.
pub fn ends_with_extension(lower_name: &str, lower_ext: &str) -> (r: bool)
    ensures
        r == has_extension_lowered(lower_name@, lower_ext@),
{
    let f = chars_of(lower_name);
    let e = chars_of(lower_ext);
    let ghost suffix = seq!['.'] + e@;
    if f.len() <= e.len() {
        return false;
    }
    let base = f.len() - e.len() - 1;
    if f[base] != '.' {
        assert(f@.subrange(base as int, f@.len() as int)[0] != suffix[0]);
        return false;
    }
    let mut i: usize = 0;
    while i < e.len()
        invariant
            f@ == lower_name@,
            e@ == lower_ext@,
            suffix == seq!['.'] + e@,
            base + 1 + e.len() == f.len(),
            f@[base as int] == '.',
            i <= e@.len(),
            forall|j: int| 0 <= j < i ==> f@[base + 1 + j] == e@[j],
        decreases e.len() - i,
    {
        if f[base + 1 + i] != e[i] {
            assert(f@.subrange(base as int, f@.len() as int)[i + 1] != suffix[i + 1]);
            return false;
        }
        i = i + 1;
    }
    assert(f@.subrange(base as int, f@.len() as int) =~= suffix);
    true
}

/// `filename` with `.{extension}` appended, unless it already ends with it, compared in
/// lowercase; an existing ending keeps its case.
pub fn ensure_extension(filename: &str, extension: &str) -> (r: String)
    ensures
        r@ == with_extension(filename@, extension@),
{
    let lower_name = lowercase(filename);
    let lower_ext = lowercase(extension);
    if ends_with_extension(lower_name.as_str(), lower_ext.as_str()) {
        String::from_str(filename)
    } else {
        proof {
            reveal_strlit(".");
        }
        String::from_str(filename).concat(".").concat(extension)
    }
}

/// Adding an extension a second time changes nothing, wherever lowercasing the name with
/// the extension added keeps the lowercased extension at its end.
pub proof fn lemma_with_extension_idempotent(f: Seq<char>, e: Seq<char>)
    requires
        has_extension(f, e) || has_extension(f + seq!['.'] + e, e),
    ensures
        with_extension(with_extension(f, e), e) == with_extension(f, e),
{
}

/// A name whose part before the first `.` is a device name is refused, whatever the case of
/// its letters and whatever follows the `.`.
pub proof fn lemma_device_names_refused(stem: Seq<char>, rest: Seq<char>)
    requires
        is_device_name(stem),
    ensures
        filename_fault(stem) is Some,
        filename_fault(stem + seq!['.'] + rest) is Some,
{
    assert(stem.take(stem.len() as int) =~= stem);
    lemma_device_stem(stem, stem);
    let s = stem + seq!['.'] + rest;
    assert(s.take(stem.len() as int) =~= stem);
    lemma_device_stem(s, stem);
}

proof fn lemma_device_stem(s: Seq<char>, stem: Seq<char>)
    requires
        is_device_name(stem),
        stem.len() <= s.len(),
        s.take(stem.len() as int) == stem,
        stem.len() == s.len() || s[stem.len() as int] == '.',
    ensures
        filename_fault(s) is Some,
{
    let k = stem.len() as int;
    assert forall|i: int| 0 <= i < k implies s[i] != '.' by {
        assert(s[i] == stem[i]);
        if is_device3(stem) {
            assert(ascii_upper(stem[i]) != ascii_upper('.'));
        } else {
            if i < 3 {
                assert(stem.take(3)[i] == stem[i]);
                assert(ascii_upper(stem[i]) != ascii_upper('.'));
            }
        }
    }
    assert(stem_ends_at(s, k));
    assert(s.len() > 0);
    if !has_path_separator(s) && first_illegal_char(s) is None && encode_utf8(s).len()
        <= MAX_FILENAME_BYTES {
        if is_device3(stem) {
            assert(k == 3);
            assert(device_stem_len(s) == 3);
        } else {
            assert(k == 4);
            assert(s[3] == stem[3]);
            assert(!stem_ends_at(s, 3));
            assert(device_stem_len(s) == 4);
        }
    }
}

/// A name that is not empty, holds none of the forbidden characters, is at most 255 bytes
/// long, names no device before its first `.`, and neither starts nor ends with `.` or a
/// space, is accepted.
pub proof fn lemma_plain_names_accepted(s: Seq<char>)
    requires
        s.len() > 0,
        !has_path_separator(s),
        first_illegal_char(s) is None,
        encode_utf8(s).len() <= MAX_FILENAME_BYTES,
        device_stem_len(s) == 0,
        !has_edge_dot_or_space(s),
    ensures
        filename_fault(s) is None,
{
}

} // verus!
