//! Parakeet vocabulary: parsing of the `"<piece> <id>"` table and the
//! SentencePiece join that turns token ids into text.
//!
//! `▁` (U+2581) marks a word boundary: it becomes a space, except at the
//! very start of the text.

use vstd::prelude::*;
use vstd::string::{StrSliceExecFns, StringExecFns};

use crate::text::{
    is_whitespace, is_ws, lemma_trim_empty_iff_all_ws, str_to_chars, string_from_range,
    trim, trim_range,
};

verus! {

/// SentencePiece word-boundary marker.
pub const WORD_BOUNDARY: char = '\u{2581}';

/// Token id of the transducer blank symbol.
pub const BLANK_ID: i32 = 8192;

/// Number of entries a vocabulary file must declare.
pub const VOCAB_SIZE: usize = 8193;

/// Why a vocabulary text was rejected. Line numbers count from 1 and
/// include blank lines.
#[derive(Debug, Clone, PartialEq, Eq)]
pub enum VocabError {
    /// A non-blank line holds no space between piece and id.
    MissingSeparator { line: usize },
    /// The id part is not a decimal integer; `text` is the id part as written.
    InvalidId { line: usize, text: String },
    /// The id is not below [`VOCAB_SIZE`].
    IdOutOfRange { line: usize, id: usize },
    /// The id was already declared.
    DuplicateId { line: usize, id: usize },
    /// The text declares a number of entries other than [`VOCAB_SIZE`].
    WrongCount { found: usize },
}

/// Mathematical view of a [`VocabError`].
pub enum VocabErrorView {
    MissingSeparator { line: nat },
    InvalidId { line: nat, text: Seq<char> },
    IdOutOfRange { line: nat, id: nat },
    DuplicateId { line: nat, id: nat },
    WrongCount { found: nat },
}

impl View for VocabError {
    type V = VocabErrorView;

    open spec fn view(&self) -> VocabErrorView {
        match self {
            VocabError::MissingSeparator { line } => VocabErrorView::MissingSeparator { line: *line as nat },
            VocabError::InvalidId { line, text } => VocabErrorView::InvalidId {
                line: *line as nat,
                text: text@,
            },
            VocabError::IdOutOfRange { line, id } => VocabErrorView::IdOutOfRange {
                line: *line as nat,
                id: *id as nat,
            },
            VocabError::DuplicateId { line, id } => VocabErrorView::DuplicateId {
                line: *line as nat,
                id: *id as nat,
            },
            VocabError::WrongCount { found } => VocabErrorView::WrongCount { found: *found as nat },
        }
    }
}

/// Index of the first `'\n'` in `s`.
pub open spec fn first_nl(s: Seq<char>) -> Option<int>
    decreases s.len(),
{
    if s.len() == 0 {
        None
    } else if s[0] == '\n' {
        Some(0)
    } else {
        match first_nl(s.drop_first()) {
            Some(i) => Some(i + 1),
            None => None,
        }
    }
}

/// `l` without one trailing carriage return.
pub open spec fn strip_cr(l: Seq<char>) -> Seq<char> {
    if l.len() > 0 && l.last() == '\r' { l.drop_last() } else { l }
}

/// The lines of `s` as `str::lines` yields them: split at `'\n'`, a
/// `"\r\n"` ending counts as one line ending, and a final line ending is
/// optional.
pub open spec fn lines(s: Seq<char>) -> Seq<Seq<char>>
    decreases s.len(),
{
    if s.len() == 0 {
        seq![]
    } else {
        match first_nl(s) {
            Some(k) => if 0 <= k < s.len() {
                seq![strip_cr(s.take(k))] + lines(s.skip(k + 1))
            } else {
                seq![]
            },
            None => seq![s],
        }
    }
}

/// Index of the last `' '` in `s`.
pub open spec fn last_space(s: Seq<char>) -> Option<int>
    decreases s.len(),
{
    if s.len() == 0 {
        None
    } else if s.last() == ' ' {
        Some(s.len() - 1)
    } else {
        last_space(s.drop_last())
    }
}

/// Whether `c` is an ASCII decimal digit.
pub open spec fn is_digit(c: char) -> bool {
    '0' <= c && c <= '9'
}

/// The value of an ASCII digit.
pub open spec fn digit_val(c: char) -> nat {
    ((c as u32) - ('0' as u32)) as nat
}

/// The value of a string of decimal digits.
pub open spec fn digits_val(d: Seq<char>) -> nat
    decreases d.len(),
{
    if d.len() == 0 {
        0
    } else {
        digits_val(d.drop_last()) * 10 + digit_val(d.last())
    }
}

/// The `usize` that `s.parse::<usize>()` yields: an optional `'+'`, then
/// one or more decimal digits, with a value that fits.
pub open spec fn parse_usize_spec(s: Seq<char>) -> Option<nat> {
    let d = plus_stripped(s);
    if d.len() == 0 || !all_digits(d) {
        None
    } else if digits_val(d) > usize::MAX {
        None
    } else {
        Some(digits_val(d))
    }
}

/// `s` without one leading `'+'`.
pub open spec fn plus_stripped(s: Seq<char>) -> Seq<char> {
    if s.len() > 0 && s[0] == '+' { s.drop_first() } else { s }
}

/// Whether every character of `d` is a decimal digit.
pub open spec fn all_digits(d: Seq<char>) -> bool {
    forall|i: int| 0 <= i < d.len() ==> is_digit(#[trigger] d[i])
}

/// Parser state: pieces by id, which ids were declared, how many.
pub type ParseState = (Seq<Seq<char>>, Seq<bool>, nat);

/// The state before any line.
pub open spec fn initial_state() -> ParseState {
    (Seq::new(VOCAB_SIZE as nat, |i: int| Seq::<char>::empty()), Seq::new(VOCAB_SIZE as nat, |i: int| false), 0)
}

/// Parses line number `lineno` (from 1): blank lines are skipped; other
/// lines split at their last space into piece and id, the id is trimmed
/// and parsed, must be in range and new, and the piece lands at that id.
pub open spec fn parse_line(line: Seq<char>, lineno: nat, st: ParseState) -> Result<ParseState, VocabErrorView> {
    if trim(line).len() == 0 {
        Ok(st)
    } else {
        match last_space(line) {
            None => Err(VocabErrorView::MissingSeparator { line: lineno }),
            Some(k) => {
                let id_text = line.skip(k + 1);
                match parse_usize_spec(trim(id_text)) {
                    None => Err(VocabErrorView::InvalidId { line: lineno, text: id_text }),
                    Some(id) => if id >= VOCAB_SIZE {
                        Err(VocabErrorView::IdOutOfRange { line: lineno, id })
                    } else if st.1[id as int] {
                        Err(VocabErrorView::DuplicateId { line: lineno, id })
                    } else {
                        Ok((st.0.update(id as int, line.take(k)), st.1.update(id as int, true), st.2 + 1))
                    },
                }
            },
        }
    }
}

/// The parser state after the first `n` lines.
pub open spec fn parse_prefix(ls: Seq<Seq<char>>, n: nat) -> Result<ParseState, VocabErrorView>
    decreases n,
{
    if n == 0 {
        Ok(initial_state())
    } else {
        match parse_prefix(ls, (n - 1) as nat) {
            Err(e) => Err(e),
            Ok(st) => parse_line(ls[n - 1], n, st),
        }
    }
}

/// The pieces a vocabulary text declares, or the first error: every line
/// parsed in order, then exactly [`VOCAB_SIZE`] entries required.
pub open spec fn parse_spec(raw: Seq<char>) -> Result<Seq<Seq<char>>, VocabErrorView> {
    let ls = lines(raw);
    match parse_prefix(ls, ls.len()) {
        Err(e) => Err(e),
        Ok(st) => if st.2 != VOCAB_SIZE {
            Err(VocabErrorView::WrongCount { found: st.2 })
        } else {
            Ok(st.0)
        },
    }
}

/// The texts of owned strings.
pub open spec fn strings_view(v: Seq<String>) -> Seq<Seq<char>> {
    v.map_values(|s: String| s@)
}

/// Parakeet's token table, indexed by token id.
pub struct Vocabulary {
    pieces: Vec<String>,
}

impl View for Vocabulary {
    type V = Seq<Seq<char>>;

    closed spec fn view(&self) -> Seq<Seq<char>> {
        strings_view(self.pieces@)
    }
}

proof fn lemma_first_nl(s: Seq<char>, k: int)
    requires
        0 <= k <= s.len(),
        forall|j: int| 0 <= j < k ==> s[j] != '\n',
        k < s.len() ==> s[k] == '\n',
    ensures
        k < s.len() ==> first_nl(s) == Some(k),
        k == s.len() ==> first_nl(s) is None,
    decreases s.len(),
{
    if s.len() > 0 && k > 0 {
        assert forall|j: int| 0 <= j < k - 1 implies s.drop_first()[j] != '\n' by {
            assert(s.drop_first()[j] == s[j + 1]);
        }
        if k < s.len() {
            assert(s.drop_first()[k - 1] == s[k]);
        }
        lemma_first_nl(s.drop_first(), k - 1);
    }
}

proof fn lemma_last_space_step(s: Seq<char>, a: int, j: int)
    requires
        0 <= a < j <= s.len(),
        s[j - 1] != ' ',
    ensures
        last_space(s.subrange(a, j)) == last_space(s.subrange(a, j - 1)),
{
    assert(s.subrange(a, j).drop_last() =~= s.subrange(a, j - 1));
}

proof fn lemma_digits_push(t: Seq<char>, c: char)
    ensures
        digits_val(t.push(c)) == digits_val(t) * 10 + digit_val(c),
{
    assert(t.push(c).drop_last() =~= t);
}

/// Parses the unsigned integer in `chars[a..b]` (see [`parse_usize_spec`]).
fn parse_usize_range(chars: &Vec<char>, a: usize, b: usize) -> (r: Option<usize>)
    requires
        a <= b <= chars@.len(),
    ensures
        r == (match parse_usize_spec(chars@.subrange(a as int, b as int)) {
            Some(v) => Some(v as usize),
            None => None,
        }),
{
    let ghost s = chars@.subrange(a as int, b as int);
    let start = if a < b && chars[a] == '+' {
        a + 1
    } else {
        a
    };
    let ghost d = chars@.subrange(start as int, b as int);
    assert(d == plus_stripped(s));
    if start == b {
        return None;
    }
    let mut acc: usize = 0;
    let mut over = false;
    let mut i = start;
    while i < b
        invariant
            start <= i <= b <= chars@.len(),
            d == chars@.subrange(start as int, b as int),
            s == chars@.subrange(a as int, b as int),
            d == plus_stripped(s),
            forall|j: int| 0 <= j < i - start ==> is_digit(#[trigger] d[j]),
            !over ==> acc == digits_val(d.take(i - start)),
            over ==> digits_val(d.take(i - start)) > usize::MAX,
        decreases b - i,
    {
        let c = chars[i];
        assert(d[i - start] == c);
        if !('0' <= c && c <= '9') {
            assert(!is_digit(d[i - start]));
            assert(!all_digits(d));
            return None;
        }
        let dv = (c as u32 - '0' as u32) as usize;
        proof {
            assert(d.take(i - start + 1) =~= d.take(i - start).push(c));
            lemma_digits_push(d.take(i - start), c);
        }
        if !over {
            if acc > (usize::MAX - dv) / 10 {
                over = true;
                proof {
                    assert(acc * 10 + dv > usize::MAX) by (nonlinear_arith)
                        requires
                            acc > (usize::MAX - dv) / 10,
                            dv <= 9,
                    ;
                }
            } else {
                proof {
                    assert(acc * 10 + dv <= usize::MAX) by (nonlinear_arith)
                        requires
                            acc <= (usize::MAX - dv) / 10,
                            dv <= 9,
                    ;
                }
                acc = acc * 10 + dv;
            }
        } else {
            proof {
                assert(digits_val(d.take(i - start)) * 10 + digit_val(c) > usize::MAX) by (nonlinear_arith)
                    requires
                        digits_val(d.take(i - start)) > usize::MAX,
                ;
            }
        }
        i = i + 1;
    }
    proof {
        assert(d.take(b - start) =~= d);
    }
    if over {
        None
    } else {
        Some(acc)
    }
}

/// Whether `chars[a..b]` is all whitespace.
fn all_whitespace(chars: &Vec<char>, a: usize, b: usize) -> (r: bool)
    requires
        a <= b <= chars@.len(),
    ensures
        r == (trim(chars@.subrange(a as int, b as int)).len() == 0),
{
    let ghost s = chars@.subrange(a as int, b as int);
    proof {
        lemma_trim_empty_iff_all_ws(s);
    }
    let mut i = a;
    while i < b
        invariant
            a <= i <= b <= chars@.len(),
            s == chars@.subrange(a as int, b as int),
            (trim(s).len() == 0) == (forall|i: int| 0 <= i < s.len() ==> is_ws(#[trigger] s[i])),
            forall|j: int| 0 <= j < i - a ==> is_ws(#[trigger] s[j]),
        decreases b - i,
    {
        assert(s[i - a] == chars@[i as int]);
        if !is_whitespace(chars[i]) {
            assert(!is_ws(s[i - a]));
            return false;
        }
        i = i + 1;
    }
    true
}

/// Parses one line `chars[a..e]` numbered `lineno` into the state.
fn parse_one_line(
    chars: &Vec<char>,
    a: usize,
    e: usize,
    lineno: usize,
    pieces: &mut Vec<String>,
    seen: &mut Vec<bool>,
    count: &mut usize,
) -> (r: Result<(), VocabError>)
    requires
        a <= e <= chars@.len(),
        old(pieces)@.len() == VOCAB_SIZE,
        old(seen)@.len() == VOCAB_SIZE,
        *old(count) < usize::MAX,
    ensures
        final(pieces)@.len() == VOCAB_SIZE,
        final(seen)@.len() == VOCAB_SIZE,
        *final(count) <= *old(count) + 1,
        match r {
            Ok(_) => parse_line(
                chars@.subrange(a as int, e as int),
                lineno as nat,
                (strings_view(old(pieces)@), old(seen)@, *old(count) as nat),
            ) == Ok::<ParseState, VocabErrorView>(
                (strings_view(final(pieces)@), final(seen)@, *final(count) as nat),
            ),
            Err(err) => parse_line(
                chars@.subrange(a as int, e as int),
                lineno as nat,
                (strings_view(old(pieces)@), old(seen)@, *old(count) as nat),
            ) == Err::<ParseState, VocabErrorView>(err@),
        },
{
    let ghost line = chars@.subrange(a as int, e as int);
    if all_whitespace(chars, a, e) {
        return Ok(());
    }
    let mut j = e;
    while j > a && chars[j - 1] != ' '
        invariant
            a <= j <= e <= chars@.len(),
            line == chars@.subrange(a as int, e as int),
            last_space(line) == last_space(chars@.subrange(a as int, j as int)),
        decreases j,
    {
        proof {
            lemma_last_space_step(chars@, a as int, j as int);
        }
        j = j - 1;
    }
    if j == a {
        assert(chars@.subrange(a as int, j as int).len() == 0);
        return Err(VocabError::MissingSeparator { line: lineno });
    }
    let sp = j - 1;
    assert(last_space(chars@.subrange(a as int, j as int)) == Some(sp - a));
    assert(line.skip(sp - a + 1) =~= chars@.subrange(sp + 1, e as int));
    assert(line.take(sp - a) =~= chars@.subrange(a as int, sp as int));
    let (ta, tb) = trim_range(chars, sp + 1, e);
    match parse_usize_range(chars, ta, tb) {
        None => Err(VocabError::InvalidId { line: lineno, text: string_from_range(chars, sp + 1, e) }),
        Some(id) => {
            if id >= VOCAB_SIZE {
                Err(VocabError::IdOutOfRange { line: lineno, id })
            } else if seen[id] {
                Err(VocabError::DuplicateId { line: lineno, id })
            } else {
                let piece = string_from_range(chars, a, sp);
                let ghost before = pieces@;
                pieces.set(id, piece);
                seen.set(id, true);
                *count = *count + 1;
                proof {
                    assert(strings_view(pieces@) =~= strings_view(before).update(id as int, piece@));
                }
                Ok(())
            }
        },
    }
}

proof fn lemma_lines_step(s: Seq<char>, k: int)
    requires
        0 < s.len(),
        0 <= k <= s.len(),
        forall|j: int| 0 <= j < k ==> s[j] != '\n',
        k < s.len() ==> s[k] == '\n',
    ensures
        k < s.len() ==> lines(s) == seq![strip_cr(s.take(k))] + lines(s.skip(k + 1)),
        k == s.len() ==> lines(s) == seq![s],
{
    lemma_first_nl(s, k);
}

impl Vocabulary {
    /// Parses vocabulary text (see [`parse_spec`]): entries land at their
    /// declared id whatever the line order, blank lines are skipped, and the
    /// first malformed line, or a wrong entry count, is reported.
    pub fn parse(raw: &str) -> (r: Result<Self, VocabError>)
        ensures
            match r {
                Ok(v) => parse_spec(raw@) == Ok::<Seq<Seq<char>>, VocabErrorView>(v@) && v@.len()
                    == VOCAB_SIZE,
                Err(e) => parse_spec(raw@) == Err::<Seq<Seq<char>>, VocabErrorView>(e@),
            },
    {
        let chars = str_to_chars(raw);
        let n = chars.len();
        let mut pieces: Vec<String> = Vec::new();
        let mut seen: Vec<bool> = Vec::new();
        let mut z: usize = 0;
        while z < VOCAB_SIZE
            invariant
                z <= VOCAB_SIZE,
                pieces@.len() == z,
                seen@.len() == z,
                forall|i: int| 0 <= i < z ==> (#[trigger] pieces@[i])@ == Seq::<char>::empty(),
                forall|i: int| 0 <= i < z ==> !(#[trigger] seen@[i]),
            decreases VOCAB_SIZE - z,
        {
            pieces.push(String::new());
            seen.push(false);
            z = z + 1;
        }
        proof {
            assert(strings_view(pieces@) =~= initial_state().0);
            assert(seen@ =~= initial_state().1);
        }
        let mut count: usize = 0;
        let ghost all = lines(chars@);
        let mut a: usize = 0;
        let mut lineno: usize = 0;
        assert(chars@.skip(0) =~= chars@);
        while a < n
            invariant
                n == chars@.len(),
                chars@ == raw@,
                all == lines(chars@),
                a <= n,
                lineno <= a,
                count <= lineno,
                lineno <= all.len(),
                lines(chars@.skip(a as int)) == all.skip(lineno as int),
                pieces@.len() == VOCAB_SIZE,
                seen@.len() == VOCAB_SIZE,
                parse_prefix(all, lineno as nat) == Ok::<ParseState, VocabErrorView>(
                    (strings_view(pieces@), seen@, count as nat),
                ),
            decreases n - a,
        {
            let mut k = a;
            while k < n && chars[k] != '\n'
                invariant
                    a <= k <= n,
                    n == chars@.len(),
                    forall|j: int| a <= j < k ==> chars@[j] != '\n',
                decreases n - k,
            {
                k = k + 1;
            }
            let ghost s = chars@.skip(a as int);
            proof {
                assert forall|j: int| 0 <= j < k - a implies s[j] != '\n' by {
                    assert(s[j] == chars@[a + j]);
                }
                if k < n {
                    assert(s[k - a] == chars@[k as int]);
                }
                lemma_lines_step(s, k - a);
                assert(lines(s).len() >= 1);
                assert(all.skip(lineno as int).len() >= 1);
            }
            let e = if k < n && k > a && chars[k - 1] == '\r' {
                k - 1
            } else {
                k
            };
            let next = if k < n {
                k + 1
            } else {
                n
            };
            proof {
                if k < n {
                    assert(s.take(k - a) =~= chars@.subrange(a as int, k as int));
                    assert(strip_cr(s.take(k - a)) =~= chars@.subrange(a as int, e as int));
                    assert(s.skip(k - a + 1) =~= chars@.skip(next as int));
                } else {
                    assert(s =~= chars@.subrange(a as int, e as int));
                    assert(chars@.skip(next as int) =~= Seq::<char>::empty());
                }
                assert(all.skip(lineno as int)[0] == all[lineno as int]);
                assert(all.skip(lineno as int + 1) =~= all.skip(lineno as int).drop_first());
            }
            let res = parse_one_line(&chars, a, e, lineno + 1, &mut pieces, &mut seen, &mut count);
            lineno = lineno + 1;
            a = next;
            if let Err(err) = res {
                proof {
                    assert(parse_prefix(all, lineno as nat) == Err::<ParseState, VocabErrorView>(err@));
                    lemma_prefix_error_sticks(all, lineno as nat, all.len());
                }
                return Err(err);
            }
        }
        proof {
            assert(all.skip(lineno as int).len() == 0);
            assert(lineno == all.len());
        }
        if count != VOCAB_SIZE {
            return Err(VocabError::WrongCount { found: count });
        }
        Ok(Vocabulary { pieces })
    }

    /// Number of entries.
    pub fn len(&self) -> (r: usize)
        ensures
            r == self@.len(),
    {
        self.pieces.len()
    }

    /// Whether the table has no entries.
    pub fn is_empty(&self) -> (r: bool)
        ensures
            r == (self@.len() == 0),
    {
        self.pieces.len() == 0
    }

    /// The piece with token id `id`, if the id is in range.
    pub fn piece(&self, id: i32) -> (r: Option<&str>)
        ensures
            (0 <= id < self@.len()) ==> (r matches Some(p) && p@ == self@[id as int]),
            !(0 <= id < self@.len()) ==> r is None,
    {
        if id < 0 {
            return None;
        }
        let i = id as usize;
        if i < self.pieces.len() {
            Some(self.pieces[i].as_str())
        } else {
            None
        }
    }

    /// Joins token ids into text (see [`decode_spec`]).
    pub fn decode_tokens(&self, tokens: &[i32]) -> (r: String)
        ensures
            r@ == decode_spec(self@, tokens@),
    {
        let mut out = String::new();
        let mut i: usize = 0;
        while i < tokens.len()
            invariant
                i <= tokens@.len(),
                out@ == decode_spec(self@, tokens@.take(i as int)),
            decreases tokens@.len() - i,
        {
            let id = tokens[i];
            proof {
                assert(tokens@.take(i + 1).drop_last() =~= tokens@.take(i as int));
                assert(tokens@.take(i + 1).last() == id);
            }
            if let Some(piece) = self.piece(id) {
                let len = piece.unicode_len();
                let special = len > 0 && piece.get_char(0) == '<' && piece.get_char(len - 1) == '>';
                if !special {
                    if len > 0 && piece.get_char(0) == WORD_BOUNDARY {
                        if !out.as_str().is_empty() {
                            out.append(" ");
                            proof {
                                reveal_strlit(" ");
                            }
                        }
                        let rest = piece.substring_char(1, len);
                        out.append(rest);
                        proof {
                            assert(rest@ =~= piece@.drop_first());
                        }
                    } else {
                        out.append(piece);
                    }
                }
            }
            proof {
                assert(out@ =~= decode_spec(self@, tokens@.take(i + 1)));
            }
            i = i + 1;
        }
        proof {
            assert(tokens@.take(tokens@.len() as int) =~= tokens@);
        }
        out
    }
}

proof fn lemma_prefix_error_sticks(ls: Seq<Seq<char>>, n: nat, m: nat)
    requires
        n <= m,
        parse_prefix(ls, n) is Err,
    ensures
        parse_prefix(ls, m) == parse_prefix(ls, n),
    decreases m - n,
{
    if n < m {
        lemma_prefix_error_sticks(ls, n, (m - 1) as nat);
    }
}

/// Whether a piece is a special token such as `<unk>` or `<blk>`.
pub open spec fn is_special(p: Seq<char>) -> bool {
    p.len() > 0 && p[0] == '<' && p.last() == '>'
}

/// The text of `tokens`: out-of-range ids and special pieces are skipped;
/// a piece starting with `▁` contributes a space (unless the text is still
/// empty) and the rest of the piece; any other piece is appended as is.
pub open spec fn decode_spec(pieces: Seq<Seq<char>>, tokens: Seq<i32>) -> Seq<char>
    decreases tokens.len(),
{
    if tokens.len() == 0 {
        seq![]
    } else {
        let out = decode_spec(pieces, tokens.drop_last());
        let id = tokens.last();
        if id < 0 || id >= pieces.len() {
            out
        } else {
            let p = pieces[id as int];
            if is_special(p) {
                out
            } else if p.len() > 0 && p[0] == '\u{2581}' {
                if out.len() > 0 {
                    out + seq![' '] + p.drop_first()
                } else {
                    p.drop_first()
                }
            } else {
                out + p
            }
        }
    }
}

/// Unknown ids and special tokens leave the decoded text unchanged.
pub proof fn law_skipped_tokens_are_invisible(pieces: Seq<Seq<char>>, tokens: Seq<i32>, id: i32)
    requires
        id < 0 || id >= pieces.len() || is_special(pieces[id as int]),
    ensures
        decode_spec(pieces, tokens.push(id)) == decode_spec(pieces, tokens),
{
    assert(tokens.push(id).drop_last() =~= tokens);
}

/// A leading word-boundary piece never produces a leading space.
pub proof fn law_no_leading_space(pieces: Seq<Seq<char>>, id: i32)
    requires
        0 <= id < pieces.len(),
        pieces[id as int].len() > 0,
        pieces[id as int][0] == '\u{2581}',
        !is_special(pieces[id as int]),
    ensures
        decode_spec(pieces, seq![id]) == pieces[id as int].drop_first(),
{
    assert(seq![id].drop_last() =~= Seq::<i32>::empty());
    assert(decode_spec(pieces, Seq::<i32>::empty()) == Seq::<char>::empty());
}

/// The entry a non-blank line declares: the text before its last space
/// as the piece, and the trimmed text after it parsed as an id below
/// [`VOCAB_SIZE`]; `None` when the line is malformed.
pub open spec fn entry_of(line: Seq<char>) -> Option<(Seq<char>, nat)> {
    match last_space(line) {
        None => None,
        Some(k) => match parse_usize_spec(trim(line.skip(k + 1))) {
            None => None,
            Some(id) => if id < VOCAB_SIZE {
                Some((line.take(k), id))
            } else {
                None
            },
        },
    }
}

/// Whether a line declares an entry (is not blank).
pub open spec fn is_entry_line(line: Seq<char>) -> bool {
    trim(line).len() > 0
}

/// The id a well-formed line declares.
pub open spec fn entry_id(line: Seq<char>) -> nat {
    entry_of(line).unwrap().1
}

/// Whether the first `n` lines are well formed: every non-blank line
/// declares an entry, and no two of them declare the same id.
pub open spec fn lines_well_formed(ls: Seq<Seq<char>>, n: nat) -> bool {
    &&& forall|i: int| 0 <= i < n && is_entry_line(#[trigger] ls[i]) ==> entry_of(ls[i]) is Some
    &&& forall|i: int, j: int|
        0 <= i < j < n && is_entry_line(#[trigger] ls[i]) && is_entry_line(#[trigger] ls[j])
            ==> entry_id(ls[i]) != entry_id(ls[j])
}

/// Number of non-blank lines among the first `n`.
pub open spec fn count_entries(ls: Seq<Seq<char>>, n: nat) -> nat
    decreases n,
{
    if n == 0 {
        0
    } else {
        count_entries(ls, (n - 1) as nat) + if is_entry_line(ls[n - 1]) { 1nat } else { 0nat }
    }
}

proof fn lemma_parse_prefix_shape(ls: Seq<Seq<char>>, n: nat)
    requires
        n <= ls.len(),
    ensures
        parse_prefix(ls, n) is Ok <==> lines_well_formed(ls, n),
        parse_prefix(ls, n) matches Ok(st) ==> {
            &&& st.0.len() == VOCAB_SIZE
            &&& st.1.len() == VOCAB_SIZE
            &&& st.2 == count_entries(ls, n)
            &&& forall|id: int|
                0 <= id < VOCAB_SIZE ==> (#[trigger] st.1[id] <==> exists|i: int|
                    0 <= i < n && is_entry_line(#[trigger] ls[i]) && entry_id(ls[i]) == id)
            &&& forall|i: int|
                0 <= i < n && is_entry_line(#[trigger] ls[i]) ==> st.0[entry_id(ls[i]) as int]
                    == entry_of(ls[i]).unwrap().0
        },
    decreases n,
{
    if n > 0 {
        let m = (n - 1) as nat;
        lemma_parse_prefix_shape(ls, m);
        let l = ls[m as int];
        if lines_well_formed(ls, n) {
            assert(lines_well_formed(ls, m));
        }
        match parse_prefix(ls, m) {
            Err(e) => {
                assert(!lines_well_formed(ls, m));
                assert(!lines_well_formed(ls, n));
            },
            Ok(st) => {
                if is_entry_line(l) {
                    match entry_of(l) {
                        None => {
                            assert(!lines_well_formed(ls, n));
                        },
                        Some(en) => {
                            let id = en.1;
                            if st.1[id as int] {
                                let w = choose|i: int|
                                    0 <= i < m && is_entry_line(#[trigger] ls[i]) && entry_id(ls[i]) == id;
                                assert(is_entry_line(ls[w]) && is_entry_line(ls[m as int]));
                                assert(!lines_well_formed(ls, n));
                            } else {
                                let st2 = parse_prefix(ls, n)->Ok_0;
                                assert forall|i: int, j: int|
                                    0 <= i < j < n && is_entry_line(#[trigger] ls[i]) && is_entry_line(
                                        #[trigger] ls[j],
                                    ) implies entry_id(ls[i]) != entry_id(ls[j]) by {
                                    if j == m {
                                        assert(st.1[entry_id(ls[i]) as int]);
                                    }
                                }
                                assert forall|x: int|
                                    0 <= x < VOCAB_SIZE implies (#[trigger] st2.1[x] <==> exists|i: int|
                                        0 <= i < n && is_entry_line(#[trigger] ls[i]) && entry_id(ls[i]) == x) by {
                                    if x == id {
                                        assert(is_entry_line(ls[m as int]));
                                    } else if st2.1[x] {
                                        assert(st.1[x]);
                                    } else {
                                        assert(!st.1[x]);
                                    }
                                }
                                assert forall|i: int|
                                    0 <= i < n && is_entry_line(#[trigger] ls[i]) implies st2.0[entry_id(ls[i]) as int]
                                        == entry_of(ls[i]).unwrap().0 by {
                                    if i < m {
                                        assert(st.1[entry_id(ls[i]) as int]);
                                    }
                                }
                            }
                        },
                    }
                } else {
                    let st2 = parse_prefix(ls, n)->Ok_0;
                    assert(st2 == st);
                    assert forall|x: int|
                        0 <= x < VOCAB_SIZE implies (#[trigger] st2.1[x] <==> exists|i: int|
                            0 <= i < n && is_entry_line(#[trigger] ls[i]) && entry_id(ls[i]) == x) by {
                        if st2.1[x] {
                            let w = choose|i: int|
                                0 <= i < m && is_entry_line(#[trigger] ls[i]) && entry_id(ls[i]) == x;
                            assert(is_entry_line(ls[w]));
                        }
                    }
                }
            },
        }
    }
}

/// The line an error names; 0 for a wrong entry count.
pub open spec fn error_line(e: VocabErrorView) -> nat {
    match e {
        VocabErrorView::MissingSeparator { line } => line,
        VocabErrorView::InvalidId { line, .. } => line,
        VocabErrorView::IdOutOfRange { line, .. } => line,
        VocabErrorView::DuplicateId { line, .. } => line,
        VocabErrorView::WrongCount { .. } => 0,
    }
}

proof fn lemma_parse_prefix_error(ls: Seq<Seq<char>>, n: nat)
    requires
        n <= ls.len(),
    ensures
        parse_prefix(ls, n) matches Err(e) ==> {
            let l = error_line(e);
            &&& !(e is WrongCount)
            &&& 1 <= l <= n
            &&& is_entry_line(ls[l - 1])
            &&& lines_well_formed(ls, (l - 1) as nat)
            &&& !lines_well_formed(ls, l)
            &&& e matches VocabErrorView::MissingSeparator { .. } ==> last_space(ls[l - 1]) is None
            &&& e matches VocabErrorView::IdOutOfRange { id, .. } ==> id >= VOCAB_SIZE
            &&& e matches VocabErrorView::DuplicateId { id, .. } ==> entry_of(ls[l - 1]) is Some
                && entry_id(ls[l - 1]) == id && exists|i: int|
                0 <= i < l - 1 && is_entry_line(#[trigger] ls[i]) && entry_id(ls[i]) == id
        },
    decreases n,
{
    if n > 0 {
        let m = (n - 1) as nat;
        lemma_parse_prefix_error(ls, m);
        lemma_parse_prefix_shape(ls, m);
        lemma_parse_prefix_shape(ls, n);
        match parse_prefix(ls, m) {
            Err(e) => {
                let l = error_line(e);
                assert(parse_prefix(ls, n) == Err::<ParseState, VocabErrorView>(e));
            },
            Ok(st) => {
                if let Err(e) = parse_prefix(ls, n) {
                    assert(error_line(e) == n);
                    if let VocabErrorView::DuplicateId { id, .. } = e {
                        assert(st.1[id as int]);
                    }
                }
            },
        }
    }
}

/// A vocabulary text is accepted exactly when every non-blank line splits
/// at its last space into a piece and an id below [`VOCAB_SIZE`], no id is
/// declared twice, and there are exactly [`VOCAB_SIZE`] such lines; the
/// table then has [`VOCAB_SIZE`] entries and holds each line's piece at
/// that line's id, whatever the line order. A rejection names the first
/// malformed non-blank line (a missing space, a bad or out-of-range id, or
/// an id declared on an earlier line), or else reports the entry count.
pub proof fn law_parse_accepts_exactly(raw: Seq<char>)
    ensures
        ({
            let ls = lines(raw);
            &&& parse_spec(raw) is Ok <==> lines_well_formed(ls, ls.len()) && count_entries(
                ls,
                ls.len(),
            ) == VOCAB_SIZE
            &&& parse_spec(raw) matches Ok(v) ==> v.len() == VOCAB_SIZE && forall|i: int|
                0 <= i < ls.len() && is_entry_line(#[trigger] ls[i]) ==> v[entry_id(ls[i]) as int]
                    == entry_of(ls[i]).unwrap().0
            &&& parse_spec(raw) matches Err(e) ==> if e is WrongCount {
                &&& lines_well_formed(ls, ls.len())
                &&& e->found == count_entries(ls, ls.len())
                &&& e->found != VOCAB_SIZE
            } else {
                let l = error_line(e);
                &&& 1 <= l <= ls.len()
                &&& is_entry_line(ls[l - 1])
                &&& lines_well_formed(ls, (l - 1) as nat)
                &&& !lines_well_formed(ls, l)
                &&& e matches VocabErrorView::MissingSeparator { .. } ==> last_space(ls[l - 1]) is None
                &&& e matches VocabErrorView::IdOutOfRange { id, .. } ==> id >= VOCAB_SIZE
                &&& e matches VocabErrorView::DuplicateId { id, .. } ==> entry_id(ls[l - 1]) == id
                    && exists|i: int|
                    0 <= i < l - 1 && is_entry_line(#[trigger] ls[i]) && entry_id(ls[i]) == id
            }
        }),
{
    let ls = lines(raw);
    lemma_parse_prefix_shape(ls, ls.len());
    lemma_parse_prefix_error(ls, ls.len());
}

/// Appending a token to text that is already non-empty: a piece starting
/// with the word-boundary mark `▁` adds a space and the rest of the piece
/// (a bare `▁` adds just the space); any other ordinary piece is appended
/// as is; unknown ids and special pieces add nothing.
pub proof fn law_append_token(pieces: Seq<Seq<char>>, tokens: Seq<i32>, id: i32)
    requires
        decode_spec(pieces, tokens).len() > 0,
    ensures
        ({
            let before = decode_spec(pieces, tokens);
            let after = decode_spec(pieces, tokens.push(id));
            &&& (id < 0 || id >= pieces.len()) ==> after == before
            &&& 0 <= id < pieces.len() && is_special(pieces[id as int]) ==> after == before
            &&& 0 <= id < pieces.len() && !is_special(pieces[id as int]) && pieces[id as int].len() > 0
                && pieces[id as int][0] == '\u{2581}' ==> after == before + seq![' ']
                + pieces[id as int].drop_first()
            &&& 0 <= id < pieces.len() && !is_special(pieces[id as int]) && !(pieces[id as int].len()
                > 0 && pieces[id as int][0] == '\u{2581}') ==> after == before + pieces[id as int]
        }),
{
    assert(tokens.push(id).drop_last() =~= tokens);
}

} // verus!
