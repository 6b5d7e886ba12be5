//! Ticker settings: the streaming mode and the instrument tokens to
//! subscribe to, as the CLI reads them from its environment.
use vstd::prelude::*;
use crate::text::{ascii_lower, ascii_lowered, chars_of, is_white_space, lemma_trim_end_unique, lemma_trim_start_unique, parse_u32_chars, parsed_u32, str_eq, string_from_chars, trim, trim_bounds, trimmed};

verus! {

/// Streaming mode of the ticker.
#[derive(Debug, Clone, Copy, PartialEq, Eq, Structural)]
pub enum Mode {
    Ltp,
    Quote,
    Full,
}

/// The mode name was none of `ltp`, `quote`, `full`.
#[derive(Debug, Clone, Copy, PartialEq, Eq, Structural)]
pub struct UnknownMode;

/// Every character is ASCII.
pub open spec fn is_ascii_text(s: Seq<char>) -> bool {
    forall|i: int| 0 <= i < s.len() ==> (#[trigger] s[i] as u32) < 128
}

/// Unicode lowercase mapping of a string (what `str::to_lowercase` returns).
pub uninterp spec fn unicode_lowercase(s: Seq<char>) -> Seq<char>;

/// `str::to_lowercase`. Its result is named by `unicode_lowercase`; on ASCII
/// text it maps `A`..=`Z` to `a`..=`z` and keeps every other character.
#[verifier::external_body]
fn to_lowercase(s: &str) -> (r: String)
    ensures
        r@ == unicode_lowercase(s@),
        is_ascii_text(s@) ==> r@ == ascii_lowered(s@),
{
    s.to_lowercase()
}

impl Mode {
    pub open spec fn name(self) -> Seq<char> {
        match self {
            Mode::Ltp => "ltp"@,
            Mode::Quote => "quote"@,
            Mode::Full => "full"@,
        }
    }

    pub fn as_str(self) -> (s: &'static str)
        ensures
            s@ == self.name(),
    {
        match self {
            Mode::Ltp => "ltp",
            Mode::Quote => "quote",
            Mode::Full => "full",
        }
    }

    /// The mode with exactly this name.
    pub open spec fn named(s: Seq<char>) -> Option<Mode> {
        if s == "ltp"@ {
            Some(Mode::Ltp)
        } else if s == "quote"@ {
            Some(Mode::Quote)
        } else if s == "full"@ {
            Some(Mode::Full)
        } else {
            None
        }
    }

    pub fn from_name(s: &str) -> (r: Option<Mode>)
        ensures
            r == Mode::named(s@),
    {
        if str_eq(s, "ltp") {
            Some(Mode::Ltp)
        } else if str_eq(s, "quote") {
            Some(Mode::Quote)
        } else if str_eq(s, "full") {
            Some(Mode::Full)
        } else {
            None
        }
    }

    /// Parses a mode setting: surrounding whitespace is ignored and the
    /// name is compared after lowercasing.
    pub fn parse(s: &str) -> (r: Result<Mode, UnknownMode>)
        ensures
            match Mode::named(unicode_lowercase(trimmed(s@))) {
                Some(m) => r == Ok::<Mode, UnknownMode>(m),
                None => r == Err::<Mode, UnknownMode>(UnknownMode),
            },
            is_ascii_text(trimmed(s@)) ==> match Mode::named(ascii_lowered(trimmed(s@))) {
                Some(m) => r == Ok::<Mode, UnknownMode>(m),
                None => r == Err::<Mode, UnknownMode>(UnknownMode),
            },
    {
        let t = trim(s);
        let l = to_lowercase(t.as_str());
        match Mode::from_name(l.as_str()) {
            Some(m) => Ok(m),
            None => Err(UnknownMode),
        }
    }
}

/// Each mode's name is plain lowercase ASCII with no surrounding space
/// and names that mode.
pub proof fn lemma_mode_names(m: Mode)
    ensures
        trimmed(m.name()) == m.name(),
        is_ascii_text(m.name()),
        ascii_lowered(m.name()) == m.name(),
        Mode::named(m.name()) == Some(m),
{
    reveal_strlit("ltp");
    reveal_strlit("quote");
    reveal_strlit("full");
    let s = m.name();
    crate::text::lemma_trim_start_bounds(s);
    crate::text::lemma_trim_end_bounds(s);
    assert(!crate::text::is_white_space(s[0]));
    assert(!crate::text::is_white_space(s.last()));
    assert(crate::text::trim_start_index(s) == 0);
    assert(crate::text::trim_end_index(s) == s.len());
    assert(s.subrange(0, s.len() as int) =~= s);
    assert(ascii_lowered(s) =~= s);
}

/// A mode's name in any mix of upper and lower case, with any whitespace
/// around it, parses back to that mode: the text is ASCII once trimmed,
/// and its ASCII lowercase names the mode, so `Mode::parse` and
/// `Mode::from_str` give `Ok(m)`.
pub proof fn lemma_mode_text_round_trip(m: Mode, pre: Seq<char>, word: Seq<char>, post: Seq<char>)
    requires
        forall|i: int| 0 <= i < pre.len() ==> is_white_space(#[trigger] pre[i]),
        forall|i: int| 0 <= i < post.len() ==> is_white_space(#[trigger] post[i]),
        is_ascii_text(word),
        ascii_lowered(word) == m.name(),
    ensures
        trimmed(pre + word + post) == word,
        is_ascii_text(trimmed(pre + word + post)),
        Mode::named(ascii_lowered(trimmed(pre + word + post))) == Some(m),
{
    reveal_strlit("ltp");
    reveal_strlit("quote");
    reveal_strlit("full");
    lemma_mode_names(m);
    let s = pre + word + post;
    let a = pre.len() as int;
    let b = a + word.len();
    assert(word.len() == m.name().len());
    assert(word.len() > 0);
    let first = word[0];
    let last = word[word.len() - 1];
    assert(ascii_lowered(word)[0] == ascii_lower(first));
    assert(ascii_lowered(word)[word.len() - 1] == ascii_lower(last));
    assert('a' <= m.name()[0] <= 'z');
    assert('a' <= m.name()[word.len() - 1] <= 'z');
    assert(!is_white_space(first));
    assert(!is_white_space(last));
    assert forall|i: int| 0 <= i < a implies is_white_space(#[trigger] s[i]) by {
        assert(s[i] == pre[i]);
    }
    assert forall|i: int| b <= i < s.len() implies is_white_space(#[trigger] s[i]) by {
        assert(s[i] == post[i - b]);
    }
    assert(s[a] == first);
    assert(s[b - 1] == last);
    lemma_trim_start_unique(s, a);
    lemma_trim_end_unique(s, b);
    assert(s.subrange(a, b) =~= word);
}

impl core::str::FromStr for Mode {
    type Err = UnknownMode;

    fn from_str(s: &str) -> (r: Result<Mode, UnknownMode>)
        ensures
            match Mode::named(unicode_lowercase(trimmed(s@))) {
                Some(m) => r == Ok::<Mode, UnknownMode>(m),
                None => r == Err::<Mode, UnknownMode>(UnknownMode),
            },
            is_ascii_text(trimmed(s@)) ==> match Mode::named(ascii_lowered(trimmed(s@))) {
                Some(m) => r == Ok::<Mode, UnknownMode>(m),
                None => r == Err::<Mode, UnknownMode>(UnknownMode),
            },
    {
        Mode::parse(s)
    }
}

/// The comma-separated parts of `s`, as `str::split(',')` yields them.
pub open spec fn comma_parts(s: Seq<char>) -> Seq<Seq<char>>
    decreases s.len(),
{
    if s.len() == 0 {
        seq![Seq::empty()]
    } else {
        let rest = comma_parts(s.drop_last());
        if s.last() == ',' {
            rest.push(Seq::empty())
        } else {
            rest.update(rest.len() - 1, rest.last().push(s.last()))
        }
    }
}

/// Reads the parts in order: blank parts are skipped, the others must be
/// 32-bit token numbers; the first part that is not one is the error.
pub open spec fn scan_tokens(parts: Seq<Seq<char>>) -> Result<Seq<u32>, Seq<char>>
    decreases parts.len(),
{
    if parts.len() == 0 {
        Ok(Seq::empty())
    } else {
        match scan_tokens(parts.drop_last()) {
            Err(e) => Err(e),
            Ok(v) => {
                let t = trimmed(parts.last());
                if t.len() == 0 {
                    Ok(v)
                } else {
                    match parsed_u32(t) {
                        Some(x) => Ok(v.push(x)),
                        None => Err(t),
                    }
                }
            },
        }
    }
}

/// Why a token list was refused.
#[derive(Debug, PartialEq, Eq)]
pub enum TokenListError {
    /// A part that is not a token number (given trimmed).
    BadToken(String),
    /// No token at all.
    Empty,
}

/// The token list that a setting such as `"738561, 5633"` denotes:
/// `Ok` with the tokens in order, `Err(Some(part))` for the first part that
/// is not a number, `Err(None)` when no token is given.
pub open spec fn token_list(s: Seq<char>) -> Result<Seq<u32>, Option<Seq<char>>> {
    match scan_tokens(comma_parts(s)) {
        Err(t) => Err(Some(t)),
        Ok(v) => if v.len() == 0 {
            Err(None)
        } else {
            Ok(v)
        },
    }
}

proof fn lemma_comma_parts_nonempty(s: Seq<char>)
    ensures
        comma_parts(s).len() >= 1,
    decreases s.len(),
{
    if s.len() > 0 {
        lemma_comma_parts_nonempty(s.drop_last());
    }
}

/// Splitting `a,b` gives the parts of `a` followed by the parts of `b`.
proof fn lemma_comma_parts_join(a: Seq<char>, b: Seq<char>)
    ensures
        comma_parts(a + seq![','] + b) == comma_parts(a) + comma_parts(b),
    decreases b.len(),
{
    let s = a + seq![','] + b;
    if b.len() == 0 {
        assert(s =~= a.push(','));
        assert(s.drop_last() =~= a);
        assert(comma_parts(s) =~= comma_parts(a) + comma_parts(b));
    } else {
        let b1 = b.drop_last();
        lemma_comma_parts_join(a, b1);
        lemma_comma_parts_nonempty(b1);
        assert(s.drop_last() =~= a + seq![','] + b1);
        assert(s.last() == b.last());
        let ca = comma_parts(a);
        let cb1 = comma_parts(b1);
        if b.last() == ',' {
            assert(comma_parts(s) =~= ca + comma_parts(b));
        } else {
            let rest = ca + cb1;
            assert(rest.last() == cb1.last());
            assert(rest.update(rest.len() - 1, rest.last().push(b.last())) =~= ca + cb1.update(
                cb1.len() - 1,
                cb1.last().push(b.last()),
            ));
        }
    }
}

/// Reading parts that each read without error, one list after the other,
/// gives the two token lists one after the other.
proof fn lemma_scan_tokens_join(p: Seq<Seq<char>>, q: Seq<Seq<char>>, x: Seq<u32>, y: Seq<u32>)
    requires
        scan_tokens(p) == Ok::<Seq<u32>, Seq<char>>(x),
        scan_tokens(q) == Ok::<Seq<u32>, Seq<char>>(y),
    ensures
        scan_tokens(p + q) == Ok::<Seq<u32>, Seq<char>>(x + y),
    decreases q.len(),
{
    if q.len() == 0 {
        assert(p + q =~= p);
        assert(x + y =~= x);
    } else {
        let q1 = q.drop_last();
        assert((p + q).drop_last() =~= p + q1);
        assert((p + q).last() == q.last());
        match scan_tokens(q1) {
            Ok(y1) => {
                lemma_scan_tokens_join(p, q1, x, y1);
                let t = trimmed(q.last());
                if t.len() != 0 {
                    assert(y == y1.push(parsed_u32(t)->0));
                    assert(x + y1.push(parsed_u32(t)->0) =~= (x + y1).push(parsed_u32(t)->0));
                }
            },
            Err(_) => {},
        }
    }
}

/// Joining two token lists with a comma gives their tokens one after the
/// other: when `a` and `b` each denote a token list, `a,b` denotes the
/// tokens of `a` followed by those of `b`.
pub proof fn lemma_token_lists_join(a: Seq<char>, b: Seq<char>)
    requires
        token_list(a) is Ok,
        token_list(b) is Ok,
    ensures
        token_list(a + seq![','] + b) == Ok::<Seq<u32>, Option<Seq<char>>>(
            token_list(a)->Ok_0 + token_list(b)->Ok_0,
        ),
{
    lemma_comma_parts_join(a, b);
    let x = token_list(a)->Ok_0;
    let y = token_list(b)->Ok_0;
    lemma_scan_tokens_join(comma_parts(a), comma_parts(b), x, y);
}

/// Processes one part `cs[from..to]` of the list.
fn take_part(cs: &Vec<char>, from: usize, to: usize, out: &mut Vec<u32>) -> (r: Result<(), String>)
    requires
        from <= to <= cs@.len(),
    ensures
        ({
            let t = trimmed(cs@.subrange(from as int, to as int));
            if t.len() == 0 {
                r is Ok && final(out)@ == old(out)@
            } else {
                match parsed_u32(t) {
                    Some(x) => r is Ok && final(out)@ == old(out)@.push(x),
                    None => r matches Err(e) && e@ == t,
                }
            }
        }),
{
    let (a, b) = trim_bounds(cs, from, to);
    if a == b {
        assert(cs@.subrange(a as int, b as int).len() == 0);
        return Ok(());
    }
    match parse_u32_chars(cs, a, b) {
        Some(x) => {
            out.push(x);
            Ok(())
        },
        None => Err(string_from_chars(cs, a, b)),
    }
}

pub fn parse_tokens(env_value: &str) -> (r: Result<Vec<u32>, TokenListError>)
    ensures
        match token_list(env_value@) {
            Ok(v) => r matches Ok(w) && w@ == v,
            Err(Some(t)) => r matches Err(TokenListError::BadToken(b)) && b@ == t,
            Err(None) => r matches Err(TokenListError::Empty),
        },
{
    let cs = chars_of(env_value);
    let mut out: Vec<u32> = Vec::new();
    let mut bad: Option<String> = None;
    let mut start: usize = 0;
    let mut i: usize = 0;
    let ghost mut done: Seq<Seq<char>> = Seq::empty();
    assert(cs@.take(0) =~= Seq::<char>::empty());
    assert(cs@.subrange(0, 0) =~= Seq::<char>::empty());
    assert(done.push(cs@.subrange(0, 0)) =~~= comma_parts(Seq::<char>::empty()));
    while i < cs.len()
        invariant
            start <= i <= cs@.len(),
            cs@ == env_value@,
            comma_parts(cs@.take(i as int)) == done.push(cs@.subrange(start as int, i as int)),
            match bad {
                None => scan_tokens(done) == Ok::<Seq<u32>, Seq<char>>(out@),
                Some(t) => scan_tokens(done) == Err::<Seq<u32>, Seq<char>>(t@),
            },
        decreases cs@.len() - i,
    {
        let ghost prev = cs@.take(i as int);
        assert(cs@.take(i + 1).drop_last() =~= prev);
        if cs[i] == ',' {
            let ghost part = cs@.subrange(start as int, i as int);
            assert(done.push(part).drop_last() =~= done);
            if bad.is_none() {
                match take_part(&cs, start, i, &mut out) {
                    Ok(()) => {},
                    Err(t) => {
                        bad = Some(t);
                    },
                }
            }
            proof {
                done = done.push(part);
                assert(cs@.subrange((i + 1) as int, (i + 1) as int) =~= Seq::<char>::empty());
            }
            start = i + 1;
        } else {
            proof {
                assert(cs@.subrange(start as int, i + 1) =~= cs@.subrange(start as int, i as int).push(cs@[i as int]));
            }
        }
        i = i + 1;
    }
    let ghost part = cs@.subrange(start as int, i as int);
    assert(cs@.take(i as int) =~= env_value@);
    assert(done.push(part).drop_last() =~= done);
    if let Some(t) = bad {
        return Err(TokenListError::BadToken(t));
    }
    match take_part(&cs, start, i, &mut out) {
        Ok(()) => {},
        Err(t) => {
            return Err(TokenListError::BadToken(t));
        },
    }
    if out.len() == 0 {
        return Err(TokenListError::Empty);
    }
    Ok(out)
}

} // verus!
