//! Which page texts `html_editor::parse` reads without panicking.
//!
//! The crate's tokenizer panics on some texts (a tag whose attribute list
//! ends after `=` or inside a quote, a comment `<!-->`, a script or style
//! body that starts with `>`, a byte index that falls inside a character).
//! [`parse_safe`] follows the tokenizer of `html_editor` 0.7.0 character by
//! character and holds exactly where none of these can happen. Where the
//! tokenizer uses a count of characters as a byte offset, the spec counts
//! the UTF-8 bytes of the characters to tell whether the offset falls on a
//! character boundary.

use vstd::prelude::*;
use vstd::string::*;

verus! {

/// Where the attribute reader of the tokenizer stands.
#[derive(Clone, Copy)]
pub enum AttrPos {
    Key,
    Equal,
    Value(Option<char>),
    Space,
}

/// What a tag text gives the tokenizer.
#[derive(Clone, Copy, PartialEq, Eq)]
pub enum TagClass {
    /// Reading the tag may panic.
    Unsafe,
    /// Not a tag: the parser returns an error here and reads no further.
    Invalid,
    /// A tag that opens a script body.
    OpensScript,
    /// A tag that opens a style body.
    OpensStyle,
    /// Any other tag.
    Other,
}

/// Where the tokenizer stands.
#[derive(Clone, Copy, PartialEq, Eq)]
pub enum ScanMode {
    Normal,
    Comment,
    Script,
    Style,
}

/// How the reading has gone so far.
#[derive(Clone, Copy, PartialEq, Eq)]
pub enum ScanVerdict {
    /// Nothing wrong yet.
    Going,
    /// The parser returns an error here and reads no further.
    Stopped,
    /// The parser may panic here.
    Unsafe,
}

/// Whether `c` is an ASCII character.
pub open spec fn is_ascii_char(c: char) -> bool {
    (c as int) < 128
}

/// `char::is_ascii_whitespace`.
pub open spec fn is_ascii_ws(c: char) -> bool {
    c == ' ' || c == '\t' || c == '\n' || c == '\x0C' || c == '\r'
}

/// `char::is_whitespace`: the characters with the Unicode `White_Space` property.
pub open spec fn is_white_space(c: char) -> bool {
    ('\t' <= c && c <= '\r') || c == ' ' || c == '\u{85}' || c == '\u{A0}' || c == '\u{1680}'
        || ('\u{2000}' <= c && c <= '\u{200A}') || c == '\u{2028}' || c == '\u{2029}'
        || c == '\u{202F}' || c == '\u{205F}' || c == '\u{3000}'
}

/// A test on one character.
#[derive(Clone, Copy)]
pub enum CharTest {
    /// Not a space.
    NotSpace,
    /// A space.
    Space,
    /// Not ASCII whitespace.
    NotAsciiWs,
    /// ASCII whitespace.
    AsciiWs,
    /// Not white space.
    NotWhite,
}

/// Whether `c` passes `test`.
pub open spec fn char_test(test: CharTest, c: char) -> bool {
    match test {
        CharTest::NotSpace => c != ' ',
        CharTest::Space => c == ' ',
        CharTest::NotAsciiWs => !is_ascii_ws(c),
        CharTest::AsciiWs => is_ascii_ws(c),
        CharTest::NotWhite => !is_white_space(c),
    }
}

/// The first index `j` in `[i, hi)` whose character passes `test`, or `hi`.
pub open spec fn first_from(t: Seq<char>, i: int, hi: int, test: CharTest) -> int
    decreases hi - i,
{
    if i >= hi {
        hi
    } else if char_test(test, t[i]) {
        i
    } else {
        first_from(t, i + 1, hi, test)
    }
}

/// The end of `t[lo..j]` once trailing white space is dropped.
pub open spec fn trim_end(t: Seq<char>, lo: int, j: int) -> int
    decreases j - lo,
{
    if j <= lo {
        lo
    } else if is_white_space(t[j - 1]) {
        trim_end(t, lo, j - 1)
    } else {
        j
    }
}

/// `t[lo..hi]` without leading and trailing white space (`str::trim`).
pub open spec fn trimmed(t: Seq<char>, lo: int, hi: int) -> Seq<char> {
    let a = first_from(t, lo, hi, CharTest::NotWhite);
    t.subrange(a, trim_end(t, a, hi))
}

/// One character of the attribute reader (`attrs::parse`): where it stands
/// and the characters it has gathered.
pub open spec fn attr_step(state: (AttrPos, Seq<char>), ch: char) -> (AttrPos, Seq<char>) {
    let (pos, stack) = state;
    match pos {
        AttrPos::Key => if ch == '=' {
            (AttrPos::Equal, Seq::empty())
        } else if ch == ' ' {
            (AttrPos::Space, Seq::empty())
        } else {
            (AttrPos::Key, stack.push(ch))
        },
        AttrPos::Equal => if ch == '\'' {
            (AttrPos::Value(Some('\'')), stack)
        } else if ch == '"' {
            (AttrPos::Value(Some('"')), stack)
        } else {
            (AttrPos::Value(None), stack.push(ch))
        },
        AttrPos::Value(None) => if ch == ' ' {
            (AttrPos::Space, Seq::empty())
        } else {
            (AttrPos::Value(None), stack.push(ch))
        },
        AttrPos::Value(Some(q)) => if ch == q {
            if stack.len() == 0 {
                (AttrPos::Space, stack)
            } else if stack.last() == '\\' {
                (pos, stack.push(ch))
            } else {
                (AttrPos::Space, Seq::empty())
            }
        } else {
            (pos, stack.push(ch))
        },
        AttrPos::Space => if ch != ' ' {
            (AttrPos::Key, stack.push(ch))
        } else {
            (AttrPos::Space, stack)
        },
    }
}

/// The attribute reader after the first `n` characters of `s`.
pub open spec fn attr_scan(s: Seq<char>, n: int) -> (AttrPos, Seq<char>)
    decreases n,
{
    if n <= 0 {
        (AttrPos::Key, Seq::empty())
    } else {
        attr_step(attr_scan(s, n - 1), s[n - 1])
    }
}

/// Whether the attribute reader panics on `s`: it does when `s` ends
/// right after an `=` or inside a quoted value.
pub open spec fn attrs_panic(s: Seq<char>) -> bool {
    match attr_scan(s, s.len() as int).0 {
        AttrPos::Equal => true,
        AttrPos::Value(Some(_)) => true,
        _ => false,
    }
}

/// `</script>`.
pub open spec fn script_close() -> Seq<char> {
    seq!['<', '/', 's', 'c', 'r', 'i', 'p', 't', '>']
}

/// `</style>`.
pub open spec fn style_close() -> Seq<char> {
    seq!['<', '/', 's', 't', 'y', 'l', 'e', '>']
}

/// What a start tag's name opens.
pub open spec fn name_class(name: Seq<char>) -> TagClass {
    if name == script_close().subrange(2, 8) {
        TagClass::OpensScript
    } else if name == style_close().subrange(2, 7) {
        TagClass::OpensStyle
    } else {
        TagClass::Other
    }
}

/// The number of bytes of `c` in UTF-8.
pub open spec fn utf8_len(c: char) -> int {
    if (c as int) < 0x80 {
        1
    } else if (c as int) < 0x800 {
        2
    } else if (c as int) < 0x10000 {
        3
    } else {
        4
    }
}

/// The byte offset in UTF-8 of the `j`-th character of `t`.
pub open spec fn byte_offset(t: Seq<char>, j: int) -> int
    decreases j,
{
    if j <= 0 {
        0
    } else {
        byte_offset(t, j - 1) + utf8_len(t[j - 1])
    }
}

/// The index `i` in `[j, hi]` of the character that starts at byte `b`, if
/// `b` falls on a character boundary there.
pub open spec fn boundary_from(t: Seq<char>, b: int, j: int, hi: int) -> Option<int>
    decreases hi - j,
{
    if byte_offset(t, j) == b {
        Some(j)
    } else if byte_offset(t, j) > b || j >= hi {
        None
    } else {
        boundary_from(t, b, j + 1, hi)
    }
}

/// The keys the attribute reader has pushed among the first `n`
/// characters of `s` include `key`.
pub open spec fn attr_pushed_key(s: Seq<char>, n: int, key: Seq<char>) -> bool
    decreases n,
{
    if n <= 0 {
        false
    } else {
        let (pos, stack) = attr_scan(s, n - 1);
        attr_pushed_key(s, n - 1, key) || (pos is Key && (s[n - 1] == '=' || s[n - 1] == ' ')
            && stack == key)
    }
}

/// Whether the attribute list `s` holds an attribute named `key` (the
/// reader also pushes the key it is reading when `s` ends).
pub open spec fn attr_declares(s: Seq<char>, key: Seq<char>) -> bool {
    let (pos, stack) = attr_scan(s, s.len() as int);
    attr_pushed_key(s, s.len() as int, key) || (pos is Key && stack.len() > 0 && stack == key)
}

/// `version`.
pub open spec fn version_key() -> Seq<char> {
    seq!['v', 'e', 'r', 's', 'i', 'o', 'n']
}

/// `encoding`.
pub open spec fn encoding_key() -> Seq<char> {
    seq!['e', 'n', 'c', 'o', 'd', 'i', 'n', 'g']
}

/// What the tokenizer does with a tag text (`Token::from`); `tag` ends
/// with `>`.
pub open spec fn tag_class(tag: Seq<char>) -> TagClass {
    let n = tag.len() as int;
    if n >= 2 && tag[n - 2] == '/' && tag[n - 1] == '>' {
        if !is_ascii_char(tag[0]) {
            TagClass::Unsafe
        } else {
            let s = first_from(tag, 1, n, CharTest::NotSpace);
            let k = first_from(tag, s, n, CharTest::Space);
            if k == n {
                if s > n - 2 {
                    TagClass::Unsafe
                } else {
                    TagClass::Other
                }
            } else {
                match boundary_from(tag, k, s, k) {
                    None => TagClass::Unsafe,
                    Some(j) => if attrs_panic(trimmed(tag, j, n - 2)) {
                        TagClass::Unsafe
                    } else {
                        TagClass::Other
                    },
                }
            }
        }
    } else if n >= 2 && tag[0] == '<' && tag[1] == '/' {
        TagClass::Other
    } else if n >= 4 && tag[0] == '<' && tag[1] == '!' && tag[2] == '-' && tag[3] == '-' {
        if n < 7 {
            TagClass::Unsafe
        } else {
            TagClass::Other
        }
    } else if n >= 2 && tag[0] == '<' && tag[1] == '!' {
        TagClass::Other
    } else if n >= 2 && tag[0] == '<' && tag[1] == '?' {
        if n < 4 || !is_ascii_char(tag[n - 2]) {
            TagClass::Unsafe
        } else {
            let a = tag.subrange(2, n - 2);
            if attrs_panic(a) || !attr_declares(a, version_key()) || !attr_declares(a, encoding_key()) {
                TagClass::Unsafe
            } else {
                TagClass::Other
            }
        }
    } else if n >= 1 && tag[0] == '<' {
        let s = first_from(tag, 1, n, CharTest::NotAsciiWs);
        let k = first_from(tag, s, n, CharTest::AsciiWs);
        if k == n {
            name_class(tag.subrange(s, n - 1))
        } else {
            match boundary_from(tag, k, s, k) {
                None => TagClass::Unsafe,
                Some(j) => if attrs_panic(trimmed(tag, j, n - 1)) {
                    TagClass::Unsafe
                } else {
                    name_class(tag.subrange(s, j))
                },
            }
        }
    } else {
        TagClass::Invalid
    }
}

/// Where the tokenizer stands: the open quote, whether it is inside a tag,
/// its mode, the characters it has gathered, and how the reading has gone.
pub struct ScanState {
    pub quote: Option<char>,
    pub in_brackets: bool,
    pub mode: ScanMode,
    pub buf: Seq<char>,
    pub verdict: ScanVerdict,
}

/// The tokenizer's state before any character.
pub open spec fn scan_init() -> ScanState {
    ScanState {
        quote: None,
        in_brackets: false,
        mode: ScanMode::Normal,
        buf: Seq::empty(),
        verdict: ScanVerdict::Going,
    }
}

/// Whether a body's characters so far are a proper tail of its closing
/// tag, on which the tokenizer's `ends_with` reads before the start.
pub open spec fn body_underflows(b: Seq<char>, close: Seq<char>) -> bool {
    b.len() < close.len() && b == close.subrange(close.len() - b.len(), close.len() as int)
}

/// Whether a body's characters end with its closing tag.
pub open spec fn body_closes(b: Seq<char>, close: Seq<char>) -> bool {
    b.len() >= close.len() && b.subrange(b.len() - close.len(), b.len() as int) == close
}

/// One character of the tokenizer (`html_to_stack`).
pub open spec fn scan_step(st: ScanState, ch: char) -> ScanState {
    if st.verdict != ScanVerdict::Going {
        st
    } else {
        match st.quote {
            Some(q) => if ch == q && st.buf.len() == 0 {
                ScanState { verdict: ScanVerdict::Unsafe, ..st }
            } else if ch == q && st.buf.last() != '\\' {
                ScanState { quote: None, buf: st.buf.push(ch), ..st }
            } else {
                ScanState { buf: st.buf.push(ch), ..st }
            },
            None => {
                let b = st.buf.push(ch);
                match st.mode {
                    ScanMode::Comment => if b.len() >= 3 && b.subrange(b.len() - 3, b.len() as int)
                        == seq!['-', '-', '>'] {
                        if b.len() < 7 {
                            ScanState { verdict: ScanVerdict::Unsafe, buf: b, ..st }
                        } else {
                            ScanState { mode: ScanMode::Normal, in_brackets: false, buf: Seq::empty(), ..st }
                        }
                    } else {
                        ScanState { buf: b, ..st }
                    },
                    ScanMode::Script => if body_underflows(b, script_close()) {
                        ScanState { verdict: ScanVerdict::Unsafe, buf: b, ..st }
                    } else if body_closes(b, script_close()) {
                        ScanState { mode: ScanMode::Normal, buf: Seq::empty(), ..st }
                    } else {
                        ScanState { buf: b, ..st }
                    },
                    ScanMode::Style => if body_underflows(b, style_close()) {
                        ScanState { verdict: ScanVerdict::Unsafe, buf: b, ..st }
                    } else if body_closes(b, style_close()) {
                        ScanState { mode: ScanMode::Normal, buf: Seq::empty(), ..st }
                    } else {
                        ScanState { buf: b, ..st }
                    },
                    ScanMode::Normal => if ch == '<' {
                        ScanState { in_brackets: true, buf: seq!['<'], ..st }
                    } else if ch == '>' {
                        let after = ScanState { in_brackets: false, buf: Seq::empty(), ..st };
                        match tag_class(b) {
                            TagClass::Unsafe => ScanState { verdict: ScanVerdict::Unsafe, ..after },
                            TagClass::Invalid => ScanState { verdict: ScanVerdict::Stopped, ..after },
                            TagClass::OpensScript => ScanState { mode: ScanMode::Script, ..after },
                            TagClass::OpensStyle => ScanState { mode: ScanMode::Style, ..after },
                            TagClass::Other => after,
                        }
                    } else if ch == '-' {
                        if b == seq!['<', '!', '-', '-'] {
                            ScanState { mode: ScanMode::Comment, buf: b, ..st }
                        } else {
                            ScanState { buf: b, ..st }
                        }
                    } else if st.in_brackets && (ch == '\'' || ch == '"') {
                        ScanState { quote: Some(ch), buf: b, ..st }
                    } else {
                        ScanState { buf: b, ..st }
                    },
                }
            },
        }
    }
}

/// The tokenizer after the first `n` characters of `text`.
pub open spec fn scan(text: Seq<char>, n: int) -> ScanState
    decreases n,
{
    if n <= 0 {
        scan_init()
    } else {
        scan_step(scan(text, n - 1), text[n - 1])
    }
}

/// Whether `html_editor::parse` reads `text` without panicking.
pub open spec fn parse_safe(text: Seq<char>) -> bool {
    scan(text, text.len() as int).verdict != ScanVerdict::Unsafe
}

/// The tag text `<name attrs/>`: a name, one space, an attribute text and `/>`.
pub open spec fn self_closing_tag(name: Seq<char>, attrs: Seq<char>) -> Seq<char> {
    seq!['<'] + name + seq![' '] + attrs + seq!['/', '>']
}

proof fn lemma_first_from_at(t: Seq<char>, i: int, k: int, hi: int, test: CharTest)
    requires
        i <= k < hi,
        k < t.len(),
        forall|j: int| i <= j < k ==> !char_test(test, #[trigger] t[j]),
        char_test(test, t[k]),
    ensures
        first_from(t, i, hi, test) == k,
    decreases k - i,
{
    if i < k {
        lemma_first_from_at(t, i + 1, k, hi, test);
    }
}

proof fn lemma_ascii_byte_offset(t: Seq<char>, j: int)
    requires
        0 <= j <= t.len(),
        forall|x: int| 0 <= x < j ==> is_ascii_char(#[trigger] t[x]),
    ensures
        byte_offset(t, j) == j,
    decreases j,
{
    if j > 0 {
        lemma_ascii_byte_offset(t, j - 1);
    }
}

proof fn lemma_boundary_at_ascii(t: Seq<char>, b: int, j: int)
    requires
        0 <= j <= b <= t.len(),
        forall|x: int| 0 <= x < b ==> is_ascii_char(#[trigger] t[x]),
    ensures
        boundary_from(t, b, j, b) == Some(b),
    decreases b - j,
{
    lemma_ascii_byte_offset(t, j);
    if j < b {
        lemma_boundary_at_ascii(t, b, j + 1);
    }
}

/// A self-closing tag `<name attrs/>` whose name is made of ASCII
/// characters other than the space, and whose attribute text (trimmed) the
/// attribute reader takes without panicking, is read without panicking
/// whatever characters the attribute text holds.
pub proof fn lemma_self_closing_tag_with_attributes_is_read(name: Seq<char>, attrs: Seq<char>)
    requires
        name.len() > 0,
        forall|i: int| 0 <= i < name.len() ==> is_ascii_char(#[trigger] name[i]) && name[i] != ' ',
        !attrs_panic(trimmed(self_closing_tag(name, attrs), name.len() + 1int, name.len() + attrs.len() + 2int)),
    ensures
        tag_class(self_closing_tag(name, attrs)) == TagClass::Other,
{
    let tag = self_closing_tag(name, attrs);
    let n = tag.len() as int;
    let k = name.len() + 1int;
    assert(n == name.len() + attrs.len() + 4);
    assert(tag[0] == '<');
    assert(tag[n - 2] == '/');
    assert(tag[n - 1] == '>');
    assert(tag[k] == ' ');
    assert forall|j: int| 1 <= j < k implies tag[j] == name[j - 1] by {}
    assert forall|x: int| 0 <= x < k implies is_ascii_char(#[trigger] tag[x]) by {
        if x > 0 {
            assert(tag[x] == name[x - 1]);
        }
    }
    assert(char_test(CharTest::NotSpace, tag[1]));
    assert(first_from(tag, 1, n, CharTest::NotSpace) == 1);
    assert forall|j: int| 1 <= j < k implies !char_test(CharTest::Space, #[trigger] tag[j]) by {
        assert(tag[j] == name[j - 1]);
    }
    lemma_first_from_at(tag, 1, k, n, CharTest::Space);
    lemma_boundary_at_ascii(tag, k, 1);
}

/// The tag text `<name attrs>`: a name, one space, an attribute text and `>`.
pub open spec fn start_tag(name: Seq<char>, attrs: Seq<char>) -> Seq<char> {
    seq!['<'] + name + seq![' '] + attrs + seq!['>']
}

/// A start tag `<name attrs>` whose name is made of ASCII characters other
/// than whitespace (and does not begin a closing tag, a comment, a doctype
/// or a declaration) is read as a tag of that name, whatever characters the
/// attribute text holds, unless the attribute reader panics on it.
pub proof fn lemma_start_tag_with_attributes_is_read(name: Seq<char>, attrs: Seq<char>)
    requires
        name.len() > 0,
        forall|i: int| 0 <= i < name.len() ==> is_ascii_char(#[trigger] name[i]) && !is_ascii_ws(name[i]),
        name[0] != '/' && name[0] != '!' && name[0] != '?',
        attrs.len() == 0 || attrs.last() != '/',
    ensures
        tag_class(start_tag(name, attrs)) == if attrs_panic(trimmed(start_tag(name, attrs), name.len() + 1int, name.len() + attrs.len() + 2int)) {
            TagClass::Unsafe
        } else {
            name_class(name)
        },
{
    let tag = start_tag(name, attrs);
    let n = tag.len() as int;
    let k = name.len() + 1int;
    assert(n == name.len() + attrs.len() + 3);
    assert(tag[0] == '<');
    assert(tag[n - 1] == '>');
    assert(tag[k] == ' ');
    assert(tag[1] == name[0]);
    if attrs.len() > 0 {
        assert(tag[n - 2] == attrs.last());
    } else {
        assert(tag[n - 2] == ' ');
    }
    assert forall|x: int| 0 <= x < k implies is_ascii_char(#[trigger] tag[x]) by {
        if x > 0 {
            assert(tag[x] == name[x - 1]);
        }
    }
    assert(char_test(CharTest::NotAsciiWs, tag[1]));
    assert(first_from(tag, 1, n, CharTest::NotAsciiWs) == 1);
    assert forall|j: int| 1 <= j < k implies !char_test(CharTest::AsciiWs, #[trigger] tag[j]) by {
        assert(tag[j] == name[j - 1]);
    }
    lemma_first_from_at(tag, 1, k, n, CharTest::AsciiWs);
    lemma_boundary_at_ascii(tag, k, 1);
    assert(tag.subrange(1, k) =~= name);
}

/// Tests one character (see [`char_test`]).
pub fn char_test_exec(test: CharTest, c: char) -> (res: bool)
    ensures
        res == char_test(test, c),
{
    let ascii_ws = c == ' ' || c == '\t' || c == '\n' || c == '\x0C' || c == '\r';
    match test {
        CharTest::NotSpace => c != ' ',
        CharTest::Space => c == ' ',
        CharTest::NotAsciiWs => !ascii_ws,
        CharTest::AsciiWs => ascii_ws,
        CharTest::NotWhite => !(('\t' <= c && c <= '\r') || c == ' ' || c == '\u{85}' || c == '\u{A0}'
            || c == '\u{1680}' || ('\u{2000}' <= c && c <= '\u{200A}') || c == '\u{2028}'
            || c == '\u{2029}' || c == '\u{202F}' || c == '\u{205F}' || c == '\u{3000}'),
    }
}

/// The first index in `[lo, hi)` whose character passes `test`, or `hi`.
pub fn first_index(t: &Vec<char>, lo: usize, hi: usize, test: CharTest) -> (res: usize)
    requires
        lo <= hi <= t@.len(),
    ensures
        res as int == first_from(t@, lo as int, hi as int, test),
        lo <= res <= hi,
        res < hi ==> char_test(test, t@[res as int]),
        forall|j: int| lo <= j < res ==> !char_test(test, #[trigger] t@[j]),
{
    let mut i = lo;
    while i < hi
        invariant
            lo <= i <= hi <= t@.len(),
            first_from(t@, lo as int, hi as int, test) == first_from(t@, i as int, hi as int, test),
            forall|j: int| lo <= j < i ==> !char_test(test, #[trigger] t@[j]),
        decreases hi - i,
    {
        if char_test_exec(test, t[i]) {
            return i;
        }
        i = i + 1;
    }
    i
}

/// The end of `t[lo..hi]` once trailing white space is dropped.
pub fn trim_end_index(t: &Vec<char>, lo: usize, hi: usize) -> (res: usize)
    requires
        lo <= hi <= t@.len(),
    ensures
        res as int == trim_end(t@, lo as int, hi as int),
        lo <= res <= hi,
{
    let mut j = hi;
    while j > lo
        invariant
            lo <= j <= hi <= t@.len(),
            trim_end(t@, lo as int, hi as int) == trim_end(t@, lo as int, j as int),
        decreases j - lo,
    {
        if char_test_exec(CharTest::NotWhite, t[j - 1]) {
            return j;
        }
        j = j - 1;
    }
    j
}

/// One character of the attribute reader (see [`attr_step`]).
fn attr_step_exec(pos: AttrPos, stack: &mut Vec<char>, ch: char) -> (res: AttrPos)
    ensures
        (res, final(stack)@) == attr_step((pos, old(stack)@), ch),
{
    match pos {
        AttrPos::Key => if ch == '=' {
            stack.clear();
            AttrPos::Equal
        } else if ch == ' ' {
            stack.clear();
            AttrPos::Space
        } else {
            stack.push(ch);
            AttrPos::Key
        },
        AttrPos::Equal => if ch == '\'' {
            AttrPos::Value(Some('\''))
        } else if ch == '"' {
            AttrPos::Value(Some('"'))
        } else {
            stack.push(ch);
            AttrPos::Value(None)
        },
        AttrPos::Value(None) => if ch == ' ' {
            stack.clear();
            AttrPos::Space
        } else {
            stack.push(ch);
            AttrPos::Value(None)
        },
        AttrPos::Value(Some(q)) => if ch == q {
            if stack.len() == 0 {
                AttrPos::Space
            } else if stack[stack.len() - 1] == '\\' {
                stack.push(ch);
                pos
            } else {
                stack.clear();
                AttrPos::Space
            }
        } else {
            stack.push(ch);
            pos
        },
        AttrPos::Space => if ch != ' ' {
            stack.push(ch);
            AttrPos::Key
        } else {
            AttrPos::Space
        },
    }
}

/// Whether the attribute reader panics on `t[lo..hi]` (see [`attrs_panic`]).
pub fn attrs_panic_exec(t: &Vec<char>, lo: usize, hi: usize) -> (res: bool)
    requires
        lo <= hi <= t@.len(),
    ensures
        res == attrs_panic(t@.subrange(lo as int, hi as int)),
{
    let ghost s = t@.subrange(lo as int, hi as int);
    let mut pos = AttrPos::Key;
    let mut stack: Vec<char> = Vec::new();
    let mut i = lo;
    while i < hi
        invariant
            lo <= i <= hi <= t@.len(),
            s == t@.subrange(lo as int, hi as int),
            (pos, stack@) == attr_scan(s, i - lo),
        decreases hi - i,
    {
        assert(s[i - lo] == t@[i as int]);
        pos = attr_step_exec(pos, &mut stack, t[i]);
        i = i + 1;
    }
    match pos {
        AttrPos::Equal => true,
        AttrPos::Value(Some(_)) => true,
        _ => false,
    }
}

/// Whether `t[lo..lo + len]` equals `pat[plo..plo + len]`.
pub fn chars_match(t: &Vec<char>, lo: usize, pat: &[char], plo: usize, len: usize) -> (res: bool)
    requires
        lo + len <= t.len(),
        plo + len <= pat.len(),
    ensures
        res == (t@.subrange(lo as int, lo + len) == pat@.subrange(plo as int, plo + len)),
{
    let ghost a = t@.subrange(lo as int, lo + len);
    let ghost b = pat@.subrange(plo as int, plo + len);
    let mut i: usize = 0;
    while i < len
        invariant
            i <= len,
            lo + len <= t.len(),
            plo + len <= pat.len(),
            a == t@.subrange(lo as int, lo + len),
            b == pat@.subrange(plo as int, plo + len),
            forall|j: int| 0 <= j < i ==> #[trigger] a[j] == b[j],
        decreases len - i,
    {
        if t[lo + i] != pat[plo + i] {
            assert(t@.subrange(lo as int, lo + len)[i as int] != pat@.subrange(plo as int, plo + len)[i as int]);
            return false;
        }
        i = i + 1;
    }
    assert(t@.subrange(lo as int, lo + len) =~= pat@.subrange(plo as int, plo + len));
    true
}

/// The number of bytes of `c` in UTF-8 (see [`utf8_len`]).
fn utf8_len_exec(c: char) -> (res: u128)
    ensures
        res as int == utf8_len(c),
        1 <= res <= 4,
{
    if c >= '\u{10000}' {
        4
    } else if c >= '\u{800}' {
        3
    } else if c >= '\u{80}' {
        2
    } else {
        1
    }
}

/// The index in `[lo, hi]` of the character of `t` that starts at byte `b`,
/// if any (see [`boundary_from`]).
pub fn boundary_index(t: &Vec<char>, b: usize, lo: usize, hi: usize) -> (res: Option<usize>)
    requires
        lo <= hi <= t@.len(),
    ensures
        match res {
            Some(j) => boundary_from(t@, b as int, lo as int, hi as int) == Some(j as int),
            None => boundary_from(t@, b as int, lo as int, hi as int) is None,
        },
        res matches Some(j) ==> lo <= j <= hi,
{
    let mut off: u128 = 0;
    let mut i: usize = 0;
    while i < lo
        invariant
            i <= lo <= hi <= t@.len(),
            off as int == byte_offset(t@, i as int),
            off <= 4 * i,
        decreases lo - i,
    {
        off = off + utf8_len_exec(t[i]);
        i = i + 1;
    }
    let mut j = lo;
    loop
        invariant
            lo <= j <= hi <= t@.len(),
            off as int == byte_offset(t@, j as int),
            off <= 4 * j,
            boundary_from(t@, b as int, lo as int, hi as int) == boundary_from(t@, b as int, j as int, hi as int),
        decreases hi - j,
    {
        if off == b as u128 {
            return Some(j);
        }
        if off > b as u128 || j >= hi {
            return None;
        }
        off = off + utf8_len_exec(t[j]);
        j = j + 1;
    }
}

/// Whether `stack` holds exactly the characters of `key`.
fn stack_is(stack: &Vec<char>, key: &[char]) -> (res: bool)
    ensures
        res == (stack@ == key@),
{
    let n = stack.len();
    if n != key.len() {
        return false;
    }
    assert(stack@.subrange(0, n as int) =~= stack@);
    assert(key@.subrange(0, n as int) =~= key@);
    chars_match(stack, 0, key, 0, n)
}

/// Whether the attribute list `t[lo..hi]` of a `<?` declaration reads
/// without panicking and names both `version` and `encoding`.
pub fn declaration_ok(t: &Vec<char>, lo: usize, hi: usize) -> (res: bool)
    requires
        lo <= hi <= t@.len(),
    ensures
        res == ({
            let a = t@.subrange(lo as int, hi as int);
            !attrs_panic(a) && attr_declares(a, version_key()) && attr_declares(a, encoding_key())
        }),
{
    let version = ['v', 'e', 'r', 's', 'i', 'o', 'n'];
    let encoding = ['e', 'n', 'c', 'o', 'd', 'i', 'n', 'g'];
    assert(version@ =~= version_key());
    assert(encoding@ =~= encoding_key());
    let ghost a = t@.subrange(lo as int, hi as int);
    let mut pos = AttrPos::Key;
    let mut stack: Vec<char> = Vec::new();
    let mut has_version = false;
    let mut has_encoding = false;
    let mut i = lo;
    while i < hi
        invariant
            lo <= i <= hi <= t@.len(),
            a == t@.subrange(lo as int, hi as int),
            version@ == version_key(),
            encoding@ == encoding_key(),
            (pos, stack@) == attr_scan(a, i - lo),
            has_version == attr_pushed_key(a, i - lo, version_key()),
            has_encoding == attr_pushed_key(a, i - lo, encoding_key()),
        decreases hi - i,
    {
        let ch = t[i];
        assert(a[i - lo] == ch);
        let key_ends = match pos {
            AttrPos::Key => ch == '=' || ch == ' ',
            _ => false,
        };
        if key_ends {
            if stack_is(&stack, &version) {
                has_version = true;
            }
            if stack_is(&stack, &encoding) {
                has_encoding = true;
            }
        }
        pos = attr_step_exec(pos, &mut stack, ch);
        i = i + 1;
    }
    let reading_key = match pos {
        AttrPos::Key => stack.len() > 0,
        _ => false,
    };
    if reading_key {
        if stack_is(&stack, &version) {
            has_version = true;
        }
        if stack_is(&stack, &encoding) {
            has_encoding = true;
        }
    }
    let panics = match pos {
        AttrPos::Equal => true,
        AttrPos::Value(Some(_)) => true,
        _ => false,
    };
    !panics && has_version && has_encoding
}

/// What the start tag name `t[lo..hi]` opens (see [`name_class`]).
fn name_class_exec(t: &Vec<char>, lo: usize, hi: usize) -> (res: TagClass)
    requires
        lo <= hi <= t@.len(),
    ensures
        res == name_class(t@.subrange(lo as int, hi as int)),
{
    let script = ['<', '/', 's', 'c', 'r', 'i', 'p', 't', '>'];
    let style = ['<', '/', 's', 't', 'y', 'l', 'e', '>'];
    assert(script@ =~= script_close());
    assert(style@ =~= style_close());
    assert(script_close().subrange(2, 8).len() == 6);
    assert(style_close().subrange(2, 7).len() == 5);
    if hi - lo == 6 && chars_match(t, lo, &script, 2, 6) {
        TagClass::OpensScript
    } else if hi - lo == 5 && chars_match(t, lo, &style, 2, 5) {
        TagClass::OpensStyle
    } else {
        TagClass::Other
    }
}

/// What the tokenizer does with a tag text (see [`tag_class`]).
pub fn tag_class_exec(tag: &Vec<char>) -> (res: TagClass)
    requires
        tag@.len() >= 1,
        tag@[tag@.len() - 1] == '>',
    ensures
        res == tag_class(tag@),
{
    let n = tag.len();
    if n >= 2 && tag[n - 2] == '/' && tag[n - 1] == '>' {
        if tag[0] >= '\u{80}' {
            TagClass::Unsafe
        } else {
            let s = first_index(tag, 1, n, CharTest::NotSpace);
            let k = first_index(tag, s, n, CharTest::Space);
            if k == n {
                if s > n - 2 {
                    TagClass::Unsafe
                } else {
                    TagClass::Other
                }
            } else {
                match boundary_index(tag, k, s, k) {
                    None => TagClass::Unsafe,
                    Some(j) => {
                        let a = first_index(tag, j, n - 2, CharTest::NotWhite);
                        let b = trim_end_index(tag, a, n - 2);
                        if attrs_panic_exec(tag, a, b) {
                            TagClass::Unsafe
                        } else {
                            TagClass::Other
                        }
                    },
                }
            }
        }
    } else if n >= 2 && tag[0] == '<' && tag[1] == '/' {
        TagClass::Other
    } else if n >= 4 && tag[0] == '<' && tag[1] == '!' && tag[2] == '-' && tag[3] == '-' {
        if n < 7 {
            TagClass::Unsafe
        } else {
            TagClass::Other
        }
    } else if n >= 2 && tag[0] == '<' && tag[1] == '!' {
        TagClass::Other
    } else if n >= 2 && tag[0] == '<' && tag[1] == '?' {
        if n < 4 || tag[n - 2] >= '\u{80}' {
            TagClass::Unsafe
        } else if declaration_ok(tag, 2, n - 2) {
            TagClass::Other
        } else {
            TagClass::Unsafe
        }
    } else if n >= 1 && tag[0] == '<' {
        let s = first_index(tag, 1, n, CharTest::NotAsciiWs);
        let k = first_index(tag, s, n, CharTest::AsciiWs);
        if k == n {
            assert(char_test(CharTest::NotAsciiWs, tag@[n - 1]));
            name_class_exec(tag, s, n - 1)
        } else {
            match boundary_index(tag, k, s, k) {
                None => TagClass::Unsafe,
                Some(j) => {
                    let a = first_index(tag, j, n - 1, CharTest::NotWhite);
                    let b = trim_end_index(tag, a, n - 1);
                    if attrs_panic_exec(tag, a, b) {
                        TagClass::Unsafe
                    } else {
                        name_class_exec(tag, s, j)
                    }
                },
            }
        }
    } else {
        TagClass::Invalid
    }
}

/// The tokenizer's state, as it runs.
struct Scanner {
    quote: Option<char>,
    in_brackets: bool,
    mode: ScanMode,
    buf: Vec<char>,
    verdict: ScanVerdict,
}

impl View for Scanner {
    type V = ScanState;

    closed spec fn view(&self) -> ScanState {
        ScanState {
            quote: self.quote,
            in_brackets: self.in_brackets,
            mode: self.mode,
            buf: self.buf@,
            verdict: self.verdict,
        }
    }
}

impl Scanner {
    fn new() -> (res: Scanner)
        ensures
            res@ == scan_init(),
    {
        Scanner {
            quote: None,
            in_brackets: false,
            mode: ScanMode::Normal,
            buf: Vec::new(),
            verdict: ScanVerdict::Going,
        }
    }

    /// Reads a tag text that ends the buffer and moves on from it.
    fn end_tag(&mut self)
        requires
            old(self).buf@.len() >= 1,
            old(self).buf@[old(self).buf@.len() - 1] == '>',
            old(self).quote is None,
            old(self).mode == ScanMode::Normal,
            old(self).verdict == ScanVerdict::Going,
        ensures
            ({
                let st = old(self)@;
                let after = ScanState { in_brackets: false, buf: Seq::empty(), ..st };
                final(self)@ == match tag_class(st.buf) {
                    TagClass::Unsafe => ScanState { verdict: ScanVerdict::Unsafe, ..after },
                    TagClass::Invalid => ScanState { verdict: ScanVerdict::Stopped, ..after },
                    TagClass::OpensScript => ScanState { mode: ScanMode::Script, ..after },
                    TagClass::OpensStyle => ScanState { mode: ScanMode::Style, ..after },
                    TagClass::Other => after,
                }
            }),
    {
        let class = tag_class_exec(&self.buf);
        self.buf.clear();
        self.in_brackets = false;
        match class {
            TagClass::Unsafe => {
                self.verdict = ScanVerdict::Unsafe;
            },
            TagClass::Invalid => {
                self.verdict = ScanVerdict::Stopped;
            },
            TagClass::OpensScript => {
                self.mode = ScanMode::Script;
            },
            TagClass::OpensStyle => {
                self.mode = ScanMode::Style;
            },
            TagClass::Other => {},
        }
    }

    /// Reads one character outside a quote (see [`scan_step`]).
    fn step_plain(&mut self, ch: char)
        requires
            old(self).quote is None,
            old(self).verdict == ScanVerdict::Going,
        ensures
            final(self)@ == scan_step(old(self)@, ch),
    {
        let mode = self.mode;
        let script = ['<', '/', 's', 'c', 'r', 'i', 'p', 't', '>'];
        let style = ['<', '/', 's', 't', 'y', 'l', 'e', '>'];
        let dashes = ['-', '-', '>'];
        let open = ['<', '!', '-', '-'];
        assert(script@ =~= script_close());
        assert(style@ =~= style_close());
        assert(dashes@ =~= seq!['-', '-', '>']);
        assert(open@ =~= seq!['<', '!', '-', '-']);
        assert(script@.subrange(0, 9) =~= script@);
        assert(style@.subrange(0, 8) =~= style@);
        assert(dashes@.subrange(0, 3) =~= dashes@);
        assert(open@.subrange(0, 4) =~= open@);
        match mode {
            ScanMode::Comment => {
                self.buf.push(ch);
                let n = self.buf.len();
                if n >= 3 && chars_match(&self.buf, n - 3, &dashes, 0, 3) {
                    if n < 7 {
                        self.verdict = ScanVerdict::Unsafe;
                    } else {
                        self.mode = ScanMode::Normal;
                        self.in_brackets = false;
                        self.buf.clear();
                    }
                }
            },
            ScanMode::Script => {
                self.buf.push(ch);
                let n = self.buf.len();
                assert(self.buf@.subrange(0, n as int) =~= self.buf@);
                if n < 9 && chars_match(&self.buf, 0, &script, 9 - n, n) {
                    self.verdict = ScanVerdict::Unsafe;
                } else if n >= 9 && chars_match(&self.buf, n - 9, &script, 0, 9) {
                    self.mode = ScanMode::Normal;
                    self.buf.clear();
                }
            },
            ScanMode::Style => {
                self.buf.push(ch);
                let n = self.buf.len();
                assert(self.buf@.subrange(0, n as int) =~= self.buf@);
                if n < 8 && chars_match(&self.buf, 0, &style, 8 - n, n) {
                    self.verdict = ScanVerdict::Unsafe;
                } else if n >= 8 && chars_match(&self.buf, n - 8, &style, 0, 8) {
                    self.mode = ScanMode::Normal;
                    self.buf.clear();
                }
            },
            ScanMode::Normal => {
                if ch == '<' {
                    self.in_brackets = true;
                    self.buf.clear();
                    self.buf.push('<');
                    assert(self.buf@ =~= seq!['<']);
                } else if ch == '>' {
                    self.buf.push(ch);
                    self.end_tag();
                } else if ch == '-' {
                    self.buf.push(ch);
                    let n = self.buf.len();
                    assert(self.buf@.subrange(0, n as int) =~= self.buf@);
                    if n == 4 && chars_match(&self.buf, 0, &open, 0, 4) {
                        self.mode = ScanMode::Comment;
                    }
                } else {
                    if self.in_brackets && (ch == '\'' || ch == '"') {
                        self.quote = Some(ch);
                    }
                    self.buf.push(ch);
                }
            },
        }
    }

    /// Reads one character (see [`scan_step`]).
    fn step(&mut self, ch: char)
        ensures
            final(self)@ == scan_step(old(self)@, ch),
    {
        let verdict = self.verdict;
        let going = match verdict {
            ScanVerdict::Going => true,
            _ => false,
        };
        if !going {
            return;
        }
        let quote = self.quote;
        match quote {
            Some(q) => {
                let n = self.buf.len();
                if ch == q && n == 0 {
                    self.verdict = ScanVerdict::Unsafe;
                } else if ch == q && self.buf[n - 1] != '\\' {
                    self.quote = None;
                    self.buf.push(ch);
                } else {
                    self.buf.push(ch);
                }
            },
            None => {
                self.step_plain(ch);
            },
        }
    }
}

/// Tells whether `html_editor::parse` reads `text` without panicking
/// (see [`parse_safe`]).
pub fn parse_is_safe(text: &str) -> (res: bool)
    ensures
        res == parse_safe(text@),
{
    let mut scanner = Scanner::new();
    for ch in it: text.chars()
        invariant
            it.seq() == text@,
            scanner@ == scan(text@, it.index() as int),
    {
        scanner.step(ch);
    }
    match scanner.verdict {
        ScanVerdict::Unsafe => false,
        _ => true,
    }
}

} // verus!
