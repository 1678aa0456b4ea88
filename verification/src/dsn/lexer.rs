use vstd::prelude::*;

use crate::dsn::error::DsnError;
use crate::dsn::token::{classify, spec_classify, Token};
use crate::text::{is_whitespace, spec_is_whitespace, str_eq, str_to_chars, string_push};

verus! {

/// Declares `regex::Error` to Verus so that the pattern wrappers can return it.
#[verifier::external_type_specification]
#[verifier::external_body]
pub struct ExRegexError(regex::Error);

/// Whether `regex::Regex::new` accepts `pattern`.
pub uninterp spec fn regex_valid(pattern: Seq<char>) -> bool;

/// What `regex::Regex::is_match` returns for the compiled `pattern` on `text`.
pub uninterp spec fn regex_matches(pattern: Seq<char>, text: Seq<char>) -> bool;

/// The text of the first capture group of the leftmost match of `pattern` in
/// `text`, as `regex::Regex::captures` finds it; none if there is no match.
pub uninterp spec fn regex_group1(pattern: Seq<char>, text: Seq<char>) -> Option<Seq<char>>;

/// `text` with every match of `pattern` removed, as
/// `regex::Regex::replace_all` with an empty replacement gives it.
pub uninterp spec fn regex_remove_all(pattern: Seq<char>, text: Seq<char>) -> Seq<char>;

/// Compiles `pattern` with `regex::Regex::new` and calls `Regex::is_match` on
/// `text`. The contract claims that compiling depends on the pattern alone and
/// names the answer; it says nothing of what the answer is.
#[verifier::external_body]
fn regex_is_match(pattern: &str, text: &str) -> (r: Result<bool, regex::Error>)
    ensures
        r is Ok <==> regex_valid(pattern@),
        r matches Ok(b) ==> b == regex_matches(pattern@, text@),
{
    match regex::Regex::new(pattern) {
        Ok(rx) => Ok(rx.is_match(text)),
        Err(e) => Err(e),
    }
}

/// Compiles `pattern` with `regex::Regex::new`, calls `Regex::captures` on
/// `text` and takes the first group of the match, if any. The contract names
/// the group; it says nothing of what it holds.
#[verifier::external_body]
fn regex_captures_group1(pattern: &str, text: &str) -> (r: Result<Option<String>, regex::Error>)
    ensures
        r is Ok <==> regex_valid(pattern@),
        r matches Ok(g) ==> match g {
            Some(s) => regex_group1(pattern@, text@) == Some(s@),
            None => regex_group1(pattern@, text@) is None,
        },
{
    match regex::Regex::new(pattern) {
        Ok(rx) => Ok(
            match rx.captures(text) {
                Some(caps) => match caps.get(1) {
                    Some(m) => Some(m.as_str().to_string()),
                    None => None,
                },
                None => None,
            },
        ),
        Err(e) => Err(e),
    }
}

/// Compiles `pattern` with `regex::Regex::new` and calls
/// `Regex::replace_all` on `text` with an empty replacement. The contract
/// names the result; it says nothing of what it holds.
#[verifier::external_body]
fn regex_replace_all_empty(pattern: &str, text: &str) -> (r: Result<String, regex::Error>)
    ensures
        r is Ok <==> regex_valid(pattern@),
        r matches Ok(s) ==> s@ == regex_remove_all(pattern@, text@),
{
    match regex::Regex::new(pattern) {
        Ok(rx) => Ok(rx.replace_all(text, "").into_owned()),
        Err(e) => Err(e),
    }
}

/// Finds the `string_quote` directive, which names the quote character.
pub const STRING_QUOTE_PATTERN: &'static str = r"(?is)\(\s*string_quote\s+(.)\s*\)";

/// Finds the `space_in_quoted_tokens on` directive.
pub const SPACES_IN_QUOTES_PATTERN: &'static str = r"(?is)\(\s*space_in_quoted_tokens\s+on\s*\)";

/// The quote character that a `string_quote` directive names: `'`, `"` or
/// `$`; any other text names none.
pub open spec fn spec_quote_char(s: Seq<char>) -> Option<char> {
    if s == "'"@ {
        Some('\'')
    } else if s == "\""@ {
        Some('"')
    } else if s == "$"@ {
        Some('$')
    } else {
        None
    }
}

/// Adds the current token to the output, unless it is empty.
pub open spec fn flush(cur: Seq<char>, out: Seq<Seq<char>>) -> Seq<Seq<char>> {
    if cur.len() == 0 {
        out
    } else {
        out.push(cur)
    }
}

/// The character that ends a quoted token: the quote character if quoted
/// tokens may hold spaces, a space otherwise.
pub open spec fn quote_stop(quote: char, spaces: bool) -> char {
    if spaces {
        quote
    } else {
        ' '
    }
}

/// The token texts that the rest of `data`, from index `i` on, gives, where
/// `cur` is the token read so far, `out` the tokens finished so far and
/// `quoted` tells whether a quoted token is open. Whitespace and parentheses
/// end a token, and each parenthesis is a token of its own; the quote
/// character opens a quoted token, which runs up to the stop character (see
/// `quote_stop`), which is dropped. Input that ends inside a quoted token
/// gives none.
pub open spec fn lex_from(
    data: Seq<char>,
    quote: Option<char>,
    spaces: bool,
    i: int,
    cur: Seq<char>,
    out: Seq<Seq<char>>,
    quoted: bool,
) -> Option<Seq<Seq<char>>>
    decreases data.len() - i,
{
    if i >= data.len() {
        if quoted {
            None
        } else {
            Some(flush(cur, out))
        }
    } else {
        let c = data[i];
        if quoted {
            if quote is Some && c == quote_stop(quote->0, spaces) {
                lex_from(data, quote, spaces, i + 1, Seq::empty(), flush(cur, out), false)
            } else {
                lex_from(data, quote, spaces, i + 1, cur.push(c), out, true)
            }
        } else if quote == Some(c) {
            lex_from(data, quote, spaces, i + 1, cur, out, true)
        } else if c == '(' || c == ')' {
            lex_from(data, quote, spaces, i + 1, Seq::empty(), flush(cur, out).push(seq![c]), false)
        } else if spec_is_whitespace(c) {
            lex_from(data, quote, spaces, i + 1, Seq::empty(), flush(cur, out), false)
        } else {
            lex_from(data, quote, spaces, i + 1, cur.push(c), out, false)
        }
    }
}

/// The token texts of `data`; none if a quoted token is not closed.
pub open spec fn dsn_lex(data: Seq<char>, quote: Option<char>, spaces: bool) -> Option<
    Seq<Seq<char>>,
> {
    lex_from(data, quote, spaces, 0, Seq::empty(), Seq::empty(), false)
}

/// The texts of a sequence of tokens.
pub open spec fn token_texts(toks: Seq<Token>) -> Seq<Seq<char>> {
    toks.map_values(|t: Token| t.s@)
}

/// True iff every token's kind is the kind that its text spells.
pub open spec fn tokens_classified(toks: Seq<Token>) -> bool {
    forall|k: int| 0 <= k < toks.len() ==> #[trigger] toks[k].tok == spec_classify(toks[k].s@)
}

/// True iff every text in `toks` is non-empty.
pub open spec fn all_nonempty(toks: Seq<Seq<char>>) -> bool {
    forall|k: int| 0 <= k < toks.len() ==> #[trigger] toks[k].len() > 0
}

proof fn lemma_lex_from_nonempty(
    data: Seq<char>,
    quote: Option<char>,
    spaces: bool,
    i: int,
    cur: Seq<char>,
    out: Seq<Seq<char>>,
    quoted: bool,
)
    requires
        all_nonempty(out),
    ensures
        lex_from(data, quote, spaces, i, cur, out, quoted) matches Some(toks) ==> all_nonempty(toks),
    decreases data.len() - i,
{
    assert(all_nonempty(flush(cur, out))) by {
        if cur.len() > 0 {
            assert(forall|k: int| 0 <= k < out.len() ==> flush(cur, out)[k] == out[k]);
        }
    }
    if i < data.len() {
        let c = data[i];
        let f = flush(cur, out);
        assert(all_nonempty(f.push(seq![c]))) by {
            assert(forall|k: int| 0 <= k < f.len() ==> f.push(seq![c])[k] == f[k]);
        }
        lemma_lex_from_nonempty(data, quote, spaces, i + 1, Seq::empty(), f, false);
        lemma_lex_from_nonempty(data, quote, spaces, i + 1, Seq::empty(), f.push(seq![c]), false);
        lemma_lex_from_nonempty(data, quote, spaces, i + 1, cur.push(c), out, true);
        lemma_lex_from_nonempty(data, quote, spaces, i + 1, cur.push(c), out, false);
        lemma_lex_from_nonempty(data, quote, spaces, i + 1, cur, out, true);
    }
}

/// No token is empty.
pub proof fn lemma_tokens_nonempty(data: Seq<char>, quote: Option<char>, spaces: bool)
    ensures
        dsn_lex(data, quote, spaces) matches Some(toks) ==> all_nonempty(toks),
{
    lemma_lex_from_nonempty(data, quote, spaces, 0, Seq::empty(), Seq::empty(), false);
}

/// The tokens that follow from a state with finished tokens `out` are `out`
/// followed by those that follow from the same state with none finished.
proof fn lemma_lex_out_prefix(
    data: Seq<char>,
    quote: Option<char>,
    spaces: bool,
    i: int,
    cur: Seq<char>,
    out: Seq<Seq<char>>,
    quoted: bool,
)
    ensures
        lex_from(data, quote, spaces, i, cur, out, quoted) == match lex_from(
            data,
            quote,
            spaces,
            i,
            cur,
            Seq::empty(),
            quoted,
        ) {
            Some(t) => Some(out + t),
            None => None::<Seq<Seq<char>>>,
        },
    decreases data.len() - i,
{
    let e = Seq::<Seq<char>>::empty();
    assert(flush(cur, out) =~= out + flush(cur, e));
    if i < data.len() {
        let c = data[i];
        assert(flush(cur, out).push(seq![c]) =~= out + flush(cur, e).push(seq![c]));
        lemma_lex_out_prefix(data, quote, spaces, i + 1, Seq::empty(), flush(cur, out), false);
        lemma_lex_out_prefix(data, quote, spaces, i + 1, Seq::empty(), flush(cur, e), false);
        lemma_lex_out_prefix(data, quote, spaces, i + 1, Seq::empty(), flush(cur, out).push(seq![c]), false);
        lemma_lex_out_prefix(data, quote, spaces, i + 1, Seq::empty(), flush(cur, e).push(seq![c]), false);
        lemma_lex_out_prefix(data, quote, spaces, i + 1, cur.push(c), out, quoted);
        lemma_lex_out_prefix(data, quote, spaces, i + 1, cur, out, true);
        lemma_lex_out_prefix(data, quote, spaces, i + 1, cur.push(c), out, false);
        if let Some(t) = lex_from(data, quote, spaces, i + 1, Seq::empty(), e, false) {
            assert(flush(cur, out) + t =~= out + (flush(cur, e) + t));
            assert(flush(cur, out).push(seq![c]) + t =~= out + (flush(cur, e).push(seq![c]) + t));
        }
    }
}

/// What follows from a position in `x + y` past `x` is what follows from the
/// same position in `y`.
proof fn lemma_lex_suffix(
    x: Seq<char>,
    y: Seq<char>,
    quote: Option<char>,
    spaces: bool,
    k: int,
    cur: Seq<char>,
    out: Seq<Seq<char>>,
    quoted: bool,
)
    requires
        0 <= k,
    ensures
        lex_from(x + y, quote, spaces, x.len() + k, cur, out, quoted) == lex_from(
            y,
            quote,
            spaces,
            k,
            cur,
            out,
            quoted,
        ),
    decreases y.len() - k,
{
    if k < y.len() {
        let c = y[k];
        assert((x + y)[x.len() + k] == c);
        lemma_lex_suffix(x, y, quote, spaces, k + 1, Seq::empty(), flush(cur, out), false);
        lemma_lex_suffix(x, y, quote, spaces, k + 1, Seq::empty(), flush(cur, out).push(seq![c]), false);
        lemma_lex_suffix(x, y, quote, spaces, k + 1, cur.push(c), out, quoted);
        lemma_lex_suffix(x, y, quote, spaces, k + 1, cur, out, true);
        lemma_lex_suffix(x, y, quote, spaces, k + 1, cur.push(c), out, false);
    }
}

/// Whether `c` ends a token outside quotes: a parenthesis or whitespace.
pub open spec fn is_boundary(c: char) -> bool {
    c == '(' || c == ')' || spec_is_whitespace(c)
}

/// Reading `a`, which holds no quote character and ends at a token boundary,
/// at the front of `a + r` leaves the tokens of `a` finished and nothing
/// pending at the end of `a`.
proof fn lemma_lex_plain_prefix(
    a: Seq<char>,
    r: Seq<char>,
    q: char,
    spaces: bool,
    i: int,
    cur: Seq<char>,
    out: Seq<Seq<char>>,
)
    requires
        0 <= i <= a.len(),
        forall|j: int| i <= j < a.len() ==> a[j] != q,
        a.len() > 0 && i < a.len() ==> is_boundary(a[a.len() - 1]),
        i == a.len() ==> cur.len() == 0,
    ensures
        lex_from(a, Some(q), spaces, i, cur, out, false) is Some,
        lex_from(a + r, Some(q), spaces, i, cur, out, false) == lex_from(
            a + r,
            Some(q),
            spaces,
            a.len() as int,
            Seq::empty(),
            lex_from(a, Some(q), spaces, i, cur, out, false)->0,
            false,
        ),
    decreases a.len() - i,
{
    if i == a.len() {
        assert(cur =~= Seq::<char>::empty());
    } else {
        let c = a[i];
        assert((a + r)[i] == c);
        if c == '(' || c == ')' {
            lemma_lex_plain_prefix(a, r, q, spaces, i + 1, Seq::empty(), flush(cur, out).push(seq![c]));
        } else if spec_is_whitespace(c) {
            lemma_lex_plain_prefix(a, r, q, spaces, i + 1, Seq::empty(), flush(cur, out));
        } else {
            assert(i + 1 < a.len());
            lemma_lex_plain_prefix(a, r, q, spaces, i + 1, cur.push(c), out);
        }
    }
}

/// Inside a quoted token, everything up to the stop character joins the
/// token, and the stop character ends it.
proof fn lemma_lex_quoted_run(
    data: Seq<char>,
    q: char,
    spaces: bool,
    i: int,
    j: int,
    cur: Seq<char>,
    out: Seq<Seq<char>>,
)
    requires
        0 <= i <= j < data.len(),
        data[j] == (if spaces { q } else { ' ' }),
        forall|k: int| i <= k < j ==> data[k] != (if spaces { q } else { ' ' }),
    ensures
        lex_from(data, Some(q), spaces, i, cur, out, true) == lex_from(
            data,
            Some(q),
            spaces,
            j + 1,
            Seq::empty(),
            flush(cur + data.subrange(i, j), out),
            false,
        ),
    decreases j - i,
{
    if i == j {
        assert(cur + data.subrange(i, j) =~= cur);
    } else {
        lemma_lex_quoted_run(data, q, spaces, i + 1, j, cur.push(data[i]), out);
        assert(cur.push(data[i]) + data.subrange(i + 1, j) =~= cur + data.subrange(i, j));
    }
}

/// A quoted token is one token whatever it holds: in the text `a`, then the
/// quote character, then `body`, then the character that ends a quoted token
/// (the quote character itself once quoted tokens may hold spaces, a space
/// otherwise), then `b`, the tokens are those of `a`, then `body` whole, with
/// its parentheses and (where allowed) spaces, then those of `b`. Here `a`
/// holds no quote character and ends at a token boundary, and `body` is not
/// empty and holds no character that would end it.
pub proof fn lemma_quoted_token_is_whole(
    a: Seq<char>,
    body: Seq<char>,
    b: Seq<char>,
    q: char,
    spaces: bool,
)
    requires
        forall|j: int| 0 <= j < a.len() ==> a[j] != q,
        a.len() > 0 ==> is_boundary(a[a.len() - 1]),
        body.len() > 0,
        forall|j: int| 0 <= j < body.len() ==> body[j] != (if spaces { q } else { ' ' }),
    ensures
        dsn_lex(a, Some(q), spaces) is Some,
        dsn_lex(a + seq![q] + body + seq![if spaces { q } else { ' ' }] + b, Some(q), spaces)
            == match dsn_lex(b, Some(q), spaces) {
            Some(tb) => Some(dsn_lex(a, Some(q), spaces)->0.push(body) + tb),
            None => None::<Seq<Seq<char>>>,
        },
{
    let stop = if spaces { q } else { ' ' };
    let e = Seq::<Seq<char>>::empty();
    let ec = Seq::<char>::empty();
    let x = seq![q] + body + seq![stop];
    let data = a + x + b;
    assert(a + seq![q] + body + seq![stop] + b =~= data);
    assert(data =~= a + (x + b));
    lemma_lex_plain_prefix(a, x + b, q, spaces, 0, ec, e);
    let ta = lex_from(a, Some(q), spaces, 0, ec, e, false)->0;
    // The opening quote.
    let o = a.len() as int;
    assert(data[o] == q);
    // The quoted run ends at the stop character.
    let j = o + 1 + body.len();
    assert(data[j] == stop);
    assert forall|k: int| o + 1 <= k < j implies data[k] != stop by {
        assert(data[k] == body[k - o - 1]);
    }
    lemma_lex_quoted_run(data, q, spaces, o + 1, j, ec, ta);
    assert(data.subrange(o + 1, j) =~= body);
    assert(ec + body =~= body);
    // The rest is `b`.
    assert(data =~= (a + x) + b);
    lemma_lex_suffix(a + x, b, Some(q), spaces, 0, ec, ta.push(body), false);
    lemma_lex_out_prefix(b, Some(q), spaces, 0, ec, ta.push(body), false);
    if let Some(tb) = dsn_lex(b, Some(q), spaces) {
        assert(ta.push(body) + tb =~= ta.push(body) + tb);
    }
}

/// Splits the text of a DSN file into tokens.
pub struct Lexer {
    data: Vec<char>,
    token: String,
    tokens: Vec<Token>,
    idx: usize,
    string_quote: Option<char>,
    spaces_in_quotes: bool,
}

impl Lexer {
    /// The text to split, with the lexer directives removed.
    pub closed spec fn spec_data(&self) -> Seq<char> {
        self.data@
    }

    /// The quote character, if the file names one.
    pub closed spec fn spec_quote(&self) -> Option<char> {
        self.string_quote
    }

    /// Whether quoted tokens may hold spaces.
    pub closed spec fn spec_spaces(&self) -> bool {
        self.spaces_in_quotes
    }

    /// The token texts that lexing from the current state gives, if the
    /// state is consistent.
    pub closed spec fn lex_result(&self) -> Option<Seq<Seq<char>>> {
        if self.idx <= self.data@.len() && tokens_classified(self.tokens@) {
            lex_from(
                self.data@,
                self.string_quote,
                self.spaces_in_quotes,
                self.idx as int,
                self.token@,
                token_texts(self.tokens@),
                false,
            )
        } else {
            None
        }
    }

    /// Reads the lexer directives of `data` and prepares to split the rest.
    ///
    /// A `(string_quote c)` directive sets the quote character, which must be
    /// `'`, `"` or `$`; `(space_in_quoted_tokens on)` lets quoted tokens hold
    /// spaces. Both directives are removed from the text.
    pub fn new(data: &str) -> (r: Result<Self, DsnError>)
        ensures
            !regex_valid(STRING_QUOTE_PATTERN@) ==> r matches Err(DsnError::InvalidPattern),
            regex_valid(STRING_QUOTE_PATTERN@) && !regex_valid(SPACES_IN_QUOTES_PATTERN@)
                ==> r matches Err(DsnError::InvalidPattern),
            regex_valid(STRING_QUOTE_PATTERN@) && regex_valid(SPACES_IN_QUOTES_PATTERN@) ==> {
                let g = regex_group1(STRING_QUOTE_PATTERN@, data@);
                let quote = match g {
                    Some(q) => spec_quote_char(q),
                    None => None,
                };
                match r {
                    Ok(lx) => {
                        &&& (g is None || quote is Some)
                        &&& lx.spec_quote() == quote
                        &&& lx.spec_spaces() == regex_matches(SPACES_IN_QUOTES_PATTERN@, data@)
                        &&& lx.spec_data() == regex_remove_all(
                            SPACES_IN_QUOTES_PATTERN@,
                            regex_remove_all(STRING_QUOTE_PATTERN@, data@),
                        )
                        &&& lx.lex_result() == dsn_lex(
                            lx.spec_data(),
                            lx.spec_quote(),
                            lx.spec_spaces(),
                        )
                    },
                    Err(e) => {
                        &&& g is Some
                        &&& quote is None
                        &&& e matches DsnError::UnknownQuoteCharacter(s)
                        &&& Some(s@) == g
                    },
                }
            },
    {
        let group = match regex_captures_group1(STRING_QUOTE_PATTERN, data) {
            Ok(g) => g,
            Err(_) => {
                return Err(DsnError::InvalidPattern);
            },
        };
        let spaces_in_quotes = match regex_is_match(SPACES_IN_QUOTES_PATTERN, data) {
            Ok(b) => b,
            Err(_) => {
                return Err(DsnError::InvalidPattern);
            },
        };
        let string_quote = match group {
            None => None,
            Some(q) => {
                if str_eq(q.as_str(), "'") {
                    Some('\'')
                } else if str_eq(q.as_str(), "\"") {
                    Some('"')
                } else if str_eq(q.as_str(), "$") {
                    Some('$')
                } else {
                    return Err(DsnError::UnknownQuoteCharacter(q));
                }
            },
        };
        let data1 = match regex_replace_all_empty(STRING_QUOTE_PATTERN, data) {
            Ok(s) => s,
            Err(_) => {
                return Err(DsnError::InvalidPattern);
            },
        };
        let data2 = match regex_replace_all_empty(SPACES_IN_QUOTES_PATTERN, data1.as_str()) {
            Ok(s) => s,
            Err(_) => {
                return Err(DsnError::InvalidPattern);
            },
        };
        let lx = Lexer {
            data: str_to_chars(data2.as_str()),
            token: String::new(),
            tokens: Vec::new(),
            idx: 0,
            string_quote,
            spaces_in_quotes,
        };
        assert(token_texts(lx.tokens@) =~= Seq::<Seq<char>>::empty());
        Ok(lx)
    }

    /// True iff splitting from the current state succeeds, that is, every
    /// quoted token is closed.
    pub fn can_lex(&self) -> (r: bool)
        requires
            self.inv(),
        ensures
            r == self.lex_result() is Some,
    {
        let n = self.data.len();
        let mut i = self.idx;
        let mut quoted = false;
        let ghost mut cur = self.token@;
        let ghost mut out = token_texts(self.tokens@);
        while i < n
            invariant
                n == self.data@.len(),
                self.inv(),
                self.idx <= i <= n,
                lex_from(self.data@, self.string_quote, self.spaces_in_quotes, i as int, cur, out, quoted)
                    == self.lex_result(),
            decreases n - i,
        {
            let c = self.data[i];
            proof {
                let q = self.string_quote;
                let sp = self.spaces_in_quotes;
                if quoted {
                    if q is Some && c == quote_stop(q->0, sp) {
                        out = flush(cur, out);
                        cur = Seq::empty();
                    } else {
                        cur = cur.push(c);
                    }
                } else if q == Some(c) {
                } else if c == '(' || c == ')' {
                    out = flush(cur, out).push(seq![c]);
                    cur = Seq::empty();
                } else if spec_is_whitespace(c) {
                    out = flush(cur, out);
                    cur = Seq::empty();
                } else {
                    cur = cur.push(c);
                }
            }
            if quoted {
                match self.string_quote {
                    Some(q) => {
                        let stop = if self.spaces_in_quotes { q } else { ' ' };
                        if c == stop {
                            quoted = false;
                        }
                    },
                    None => {},
                }
            } else {
                match self.string_quote {
                    Some(q) => {
                        if q == c {
                            quoted = true;
                        }
                    },
                    None => {},
                }
            }
            i = i + 1;
        }
        !quoted
    }

    /// The internal consistency of a lexer: the position lies in the text and
    /// every finished token has the kind its text spells.
    pub closed spec fn inv(&self) -> bool {
        &&& self.idx <= self.data@.len()
        &&& tokens_classified(self.tokens@)
    }

    /// Splits the text into tokens. Every quoted token must be closed (see
    /// `can_lex`); the text must be shorter than `usize::MAX`.
    pub fn lex(self) -> (r: Result<Vec<Token>, DsnError>)
        requires
            self.inv(),
            self.lex_result() is Some,
        ensures
            r matches Ok(toks) && token_texts(toks@) == self.lex_result()->0 && tokens_classified(
                toks@,
            ),
    {
        let ghost target = self.lex_result()->0;
        let mut lx = self;
        let ghost data0 = lx.data@;
        while lx.idx < lx.data.len()
            invariant
                lx.inv(),
                lx.data@ == data0,
                lex_from(
                    lx.data@,
                    lx.string_quote,
                    lx.spaces_in_quotes,
                    lx.idx as int,
                    lx.token@,
                    token_texts(lx.tokens@),
                    false,
                ) == Some(target),
            decreases data0.len() - lx.idx,
        {
            let ghost start = lx.idx;
            let c = lx.next()?;
            let is_quote = match lx.string_quote {
                Some(q) => q == c,
                None => false,
            };
            if is_quote {
                // Grab the quoted literal.
                let stop = if lx.spaces_in_quotes {
                    match lx.string_quote {
                        Some(q) => q,
                        None => ' ',
                    }
                } else {
                    ' '
                };
                while lx.peek() != stop
                    invariant
                        lx.inv(),
                        lx.data@ == data0,
                        lx.idx > start,
                        lx.string_quote is Some,
                        stop == quote_stop(lx.string_quote->0, lx.spaces_in_quotes),
                        lex_from(
                            lx.data@,
                            lx.string_quote,
                            lx.spaces_in_quotes,
                            lx.idx as int,
                            lx.token@,
                            token_texts(lx.tokens@),
                            true,
                        ) == Some(target),
                    decreases lx.data@.len() - lx.idx,
                {
                    let next = lx.next()?;
                    string_push(&mut lx.token, next);
                }
                lx.next()?;  // Discard the ending character.
                lx.push();
            } else {
                // Whitespace and parentheses end the current token.
                let ws = is_whitespace(c);
                if ws || c == '(' || c == ')' {
                    lx.push();
                }
                if !ws {
                    string_push(&mut lx.token, c);
                }
                // A parenthesis is a complete token.
                if c == '(' || c == ')' {
                    lx.push();
                }
            }
        }
        lx.push();
        Ok(lx.tokens)
    }

    /// The character at the current position.
    fn peek(&self) -> (c: char)
        requires
            self.idx < self.data@.len(),
        ensures
            c == self.data@[self.idx as int],
    {
        self.data[self.idx]
    }

    /// Takes the character at the current position; fails at the end of the
    /// text.
    fn next(&mut self) -> (r: Result<char, DsnError>)
        ensures
            old(self).idx < old(self).data@.len() ==> {
                &&& r == Ok::<char, DsnError>(old(self).data@[old(self).idx as int])
                &&& final(self).idx == old(self).idx + 1
            },
            old(self).idx >= old(self).data@.len() ==> {
                &&& r matches Err(DsnError::UnexpectedEof)
                &&& final(self).idx == old(self).idx
            },
            final(self).data == old(self).data,
            final(self).token == old(self).token,
            final(self).tokens == old(self).tokens,
            final(self).string_quote == old(self).string_quote,
            final(self).spaces_in_quotes == old(self).spaces_in_quotes,
    {
        if self.idx < self.data.len() {
            self.idx += 1;
            Ok(self.data[self.idx - 1])
        } else {
            Err(DsnError::UnexpectedEof)
        }
    }

    /// Ends the current token: a non-empty one joins the finished tokens,
    /// with the kind that its text spells.
    fn push(&mut self)
        ensures
            token_texts(final(self).tokens@) == flush(old(self).token@, token_texts(old(self).tokens@)),
            tokens_classified(old(self).tokens@) ==> tokens_classified(final(self).tokens@),
            final(self).token@ == Seq::<char>::empty(),
            final(self).data == old(self).data,
            final(self).idx == old(self).idx,
            final(self).string_quote == old(self).string_quote,
            final(self).spaces_in_quotes == old(self).spaces_in_quotes,
    {
        if !self.token.as_str().is_empty() {
            let token = Token { tok: classify(self.token.as_str()), s: self.token.clone() };
            self.tokens.push(token);
            assert(token_texts(self.tokens@) =~= token_texts(old(self).tokens@).push(old(self).token@));
        }
        self.token = String::new();
    }
}

} // verus!
