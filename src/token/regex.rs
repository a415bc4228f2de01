//! A tokenizer whose token types are given by regular expressions.
use vstd::prelude::*;
use crate::error::{ParseError, ParseErrorView};
use crate::token::{
    Token, TokenInfo, TokenInfoView, TokenResult, TokenStream, TokenType, Tokenizer, chars_of,
    is_terminal,
};

verus! {

/// Relies on regex::Regex only as an opaque compiled pattern.
#[verifier::external_type_specification]
#[verifier::external_body]
pub struct ExRegex(regex::Regex);

/// Relies on regex::Error only as an opaque value handed through.
#[verifier::external_type_specification]
#[verifier::external_body]
pub struct ExRegexError(regex::Error);

/// The leftmost-first match of `pattern` in `text`, as the text before the match and
/// the matched text; `None` when there is no match.
pub uninterp spec fn regex_split(pattern: Seq<char>, text: Seq<char>) -> Option<(Seq<char>, Seq<char>)>;

/// Whether `pattern` compiles to a regular expression.
pub uninterp spec fn regex_compiles(pattern: Seq<char>) -> bool;

/// A regular expression. When `from_pattern` is set, it was compiled by `compile` from
/// `pattern` (or is a copy of one that was); otherwise it was handed in compiled, with
/// options that `pattern` need not show, and `pattern` is empty.
pub struct CompiledPattern {
    pattern: String,
    regex: regex::Regex,
    from_pattern: bool,
}

impl CompiledPattern {
    pub closed spec fn pattern(&self) -> Seq<char> {
        self.pattern@
    }

    /// Whether the expression is the one `regex::Regex::new` compiles from `pattern`.
    pub closed spec fn described(&self) -> bool {
        self.from_pattern
    }

    /// A copy of this expression.
    fn copy(&self) -> (r: CompiledPattern)
        ensures
            r.pattern() == self.pattern(),
            r.described() == self.described(),
    {
        CompiledPattern {
            pattern: self.pattern.clone(),
            regex: clone_regex(&self.regex),
            from_pattern: self.from_pattern,
        }
    }

    /// An expression handed in compiled.
    fn adopt(re: &regex::Regex) -> (r: CompiledPattern)
        ensures
            !r.described(),
    {
        CompiledPattern { pattern: String::new(), regex: clone_regex(re), from_pattern: false }
    }
}

/// Relies on regex::Regex::clone: an expression that matches as `re` does.
#[verifier::external_body]
fn clone_regex(re: &regex::Regex) -> (r: regex::Regex) {
    re.clone()
}

/// Relies on regex::Regex::new: compiles `pattern`, or tells why it cannot.
#[verifier::external_body]
fn compile(pattern: &str) -> (r: Result<CompiledPattern, regex::Error>)
    ensures
        r is Ok <==> regex_compiles(pattern@),
        r matches Ok(c) ==> c.pattern() == pattern@ && c.described(),
{
    regex::Regex::new(pattern).map(
        |regex| CompiledPattern { pattern: pattern.to_string(), regex, from_pattern: true },
    )
}

/// Relies on regex::Regex::find: the leftmost-first match, cut out of `text` at its
/// start and end offsets.
#[verifier::external_body]
fn find_split(c: &CompiledPattern, text: &str) -> (r: Option<(String, String)>)
    ensures
        c.described() ==> (r is Some <==> regex_split(c.pattern(), text@) is Some),
        c.described() ==> (r matches Some((a, m)) ==> (a@, m@) == regex_split(
            c.pattern(),
            text@,
        )->0),
        r matches Some((a, m)) ==> a@.len() + m@.len() <= text@.len() && text@.subrange(
            0,
            a@.len() + m@.len() as int,
        ) == a@ + m@,
{
    c.regex.find(text).map(|m| (text[..m.start()].to_string(), m.as_str().to_string()))
}

/// The definitions of a tokenizer: token types with their patterns, in order.
pub type PatternView = Seq<(TokenType, Seq<char>)>;

/// The start of each pattern's match in `text`, if it has one.
pub open spec fn match_starts(pats: PatternView, text: Seq<char>) -> Seq<Option<int>> {
    Seq::new(
        pats.len(),
        |k: int|
            match regex_split(pats[k].1, text) {
                Some(am) => Some(am.0.len() as int),
                None => None,
            },
    )
}

/// The index of the smallest start; of equal starts, the first.
pub open spec fn earliest(s: Seq<Option<int>>) -> Option<int>
    decreases s.len(),
{
    if s.len() == 0 {
        None
    } else {
        let b = earliest(s.drop_last());
        match s.last() {
            None => b,
            Some(x) => match b {
                None => Some(s.len() - 1),
                Some(j) => if x < s[j]->0 {
                    Some(s.len() - 1)
                } else {
                    b
                },
            },
        }
    }
}

/// What a stream over `src` hands out from index `i` on: the earliest match of any
/// pattern, ties going to the first pattern, as a token, the text before it skipped;
/// the end of the source when no pattern matches the rest. A match of no characters
/// is an error.
pub open spec fn regex_tokens(pats: PatternView, src: Seq<char>, i: int) -> Seq<TokenResult>
    decreases src.len() - i,
{
    let text = src.subrange(i, src.len() as int);
    match earliest(match_starts(pats, text)) {
        None => seq![Ok(TokenInfoView { token: None, pos: src.len() as int })],
        Some(k) => {
            let am = regex_split(pats[k].1, text)->0;
            let start = i + am.0.len();
            let end = start + am.1.len();
            if am.1.len() == 0 {
                seq![Err(ParseErrorView::Misc(start, "empty match"@))]
            } else {
                let tok = Ok(TokenInfoView { token: Some((pats[k].0, am.1)), pos: start });
                if i < end <= src.len() {
                    seq![tok] + regex_tokens(pats, src, end)
                } else {
                    seq![Ok(TokenInfoView { token: None, pos: src.len() as int })]
                }
            }
        },
    }
}

} // verus!

verus! {

/// The patterns that failed to compile, each with its index in the specification.
#[derive(Debug)]
pub struct RegexErrors(pub Vec<RegexErrorDescription>);

/// A pattern that failed to compile.
#[derive(Debug)]
pub struct RegexErrorDescription {
    /// The index of the pattern in the specification.
    pub index: usize,
    /// Why it failed.
    pub error: regex::Error,
}

struct RegexTokenDef {
    token_type: TokenType,
    regex: CompiledPattern,
}

/// A tokenizer whose token types are given by regular expressions.
pub struct RegexTokenizer {
    token_defs: Vec<RegexTokenDef>,
}

pub open spec fn error_indices_ok(es: Seq<RegexErrorDescription>, n: int) -> bool {
    &&& es.len() > 0
    &&& forall|a: int, b: int| 0 <= a < b < es.len() ==> es[a].index < es[b].index
    &&& forall|a: int| 0 <= a < es.len() ==> (#[trigger] es[a]).index < n
}

impl RegexTokenizer {
    pub closed spec fn patterns(&self) -> PatternView {
        Seq::new(
            self.token_defs.len() as nat,
            |k: int| (self.token_defs@[k].token_type, self.token_defs@[k].regex.pattern()),
        )
    }

    /// Whether every expression is described by its pattern.
    pub closed spec fn all_described(&self) -> bool {
        forall|k: int| 0 <= k < self.token_defs.len() ==> (#[trigger] self.token_defs@[k]).regex.described()
    }

    /// A tokenizer from token types and regular expressions, in order. The expressions
    /// keep the options they were built with; their matches are not described.
    pub fn new(spec: &[(TokenType, regex::Regex)]) -> (r: Self)
        ensures
            r.patterns().len() == spec@.len(),
            forall|k: int| 0 <= k < spec@.len() ==> (#[trigger] r.patterns()[k]).0 == spec@[k].0,
    {
        let mut token_defs: Vec<RegexTokenDef> = Vec::new();
        let mut i: usize = 0;
        while i < spec.len()
            invariant
                i <= spec.len(),
                token_defs.len() == i,
                forall|k: int| 0 <= k < i ==> (#[trigger] token_defs@[k]).token_type == spec@[k].0,
            decreases spec.len() - i,
        {
            token_defs.push(
                RegexTokenDef { token_type: spec[i].0, regex: CompiledPattern::adopt(&spec[i].1) },
            );
            i += 1;
        }
        RegexTokenizer { token_defs }
    }

    /// A tokenizer from token types and pattern texts. Every pattern that fails to
    /// compile is reported, with its index.
    pub fn from_str_spec(spec: &[(TokenType, &str)]) -> (r: Result<Self, RegexErrors>)
        ensures
            r is Ok <==> forall|k: int| 0 <= k < spec@.len() ==> regex_compiles(#[trigger] spec@[k].1@),
            r matches Ok(t) ==> t.describes_tokens(),
            r matches Ok(t) ==> t.patterns() == Seq::new(
                spec@.len(),
                |k: int| (spec@[k].0, spec@[k].1@),
            ),
            r matches Err(RegexErrors(es)) ==> {
                &&& error_indices_ok(es@, spec@.len() as int)
                &&& forall|a: int| 0 <= a < es@.len() ==> !regex_compiles(spec@[(#[trigger] es@[a]).index as int].1@)
                &&& forall|k: int| 0 <= k < spec@.len() && !regex_compiles(#[trigger] spec@[k].1@) ==> exists|a: int| 0 <= a < es@.len() && (#[trigger] es@[a]).index == k
            },
    {
        let mut token_defs: Vec<RegexTokenDef> = Vec::new();
        let mut errors: Vec<RegexErrorDescription> = Vec::new();
        let mut index: usize = 0;
        while index < spec.len()
            invariant
                index <= spec.len(),
                errors.len() == 0 ==> token_defs.len() == index && forall|j: int|
                    0 <= j < index ==> (#[trigger] token_defs@[j]).token_type == spec@[j].0
                        && token_defs@[j].regex.pattern() == spec@[j].1@
                        && token_defs@[j].regex.described(),
                forall|a: int, b: int|
                    0 <= a < b < errors.len() ==> errors@[a].index < errors@[b].index,
                forall|a: int| 0 <= a < errors.len() ==> (#[trigger] errors@[a]).index < index,
                forall|a: int| 0 <= a < errors.len() ==> !regex_compiles(spec@[(#[trigger] errors@[a]).index as int].1@),
                forall|k: int| 0 <= k < index && !regex_compiles(#[trigger] spec@[k].1@) ==> exists|a: int| 0 <= a < errors.len() && (#[trigger] errors@[a]).index == k,
                errors.len() == 0 <==> forall|k: int| 0 <= k < index ==> regex_compiles(#[trigger] spec@[k].1@),
            decreases spec.len() - index,
        {
            let (token_type, re) = spec[index];
            let ghost before = errors@;
            match compile(re) {
                Ok(regex) => {
                    token_defs.push(RegexTokenDef { token_type, regex });
                },
                Err(error) => {
                    errors.push(RegexErrorDescription { index, error });
                    proof {
                        assert forall|k: int|
                            0 <= k < index + 1 && !regex_compiles(
                                #[trigger] spec@[k].1@,
                            ) implies exists|a: int|
                            0 <= a < errors.len() && (#[trigger] errors@[a]).index == k by {
                            if k == index {
                                assert(errors@[errors.len() - 1].index == k);
                            } else {
                                let a = choose|a: int|
                                    0 <= a < before.len() && (#[trigger] before[a]).index == k;
                                assert(errors@[a] == before[a]);
                            }
                        }
                    }
                },
            }
            index += 1;
        }
        if errors.len() > 0 {
            Err(RegexErrors(errors))
        } else {
            let t = RegexTokenizer { token_defs };
            assert(t.all_described());
            assert(t.patterns() =~= Seq::new(spec@.len(), |k: int| (spec@[k].0, spec@[k].1@)));
            Ok(t)
        }
    }
}

} // verus!

verus! {

pub open spec fn starts_view(v: Seq<Option<usize>>) -> Seq<Option<int>> {
    Seq::new(
        v.len(),
        |k: int|
            match v[k] {
                Some(x) => Some(x as int),
                None => None,
            },
    )
}

/// The index of the smallest start; of equal starts, the first.
fn earliest_index(starts: &Vec<Option<usize>>) -> (r: Option<usize>)
    ensures
        r == match earliest(starts_view(starts@)) {
            Some(k) => Some(k as usize),
            None => None::<usize>,
        },
        r matches Some(k) ==> k < starts.len() && starts@[k as int] is Some,
        earliest(starts_view(starts@)) matches Some(k) ==> 0 <= k < starts.len(),
{
    let ghost s = starts_view(starts@);
    let mut best: Option<usize> = None;
    let mut i: usize = 0;
    assert(s.take(0) =~= Seq::<Option<int>>::empty());
    while i < starts.len()
        invariant
            i <= starts.len(),
            s == starts_view(starts@),
            best == match earliest(s.take(i as int)) {
                Some(k) => Some(k as usize),
                None => None::<usize>,
            },
            best matches Some(k) ==> k < i && starts@[k as int] is Some,
            earliest(s.take(i as int)) matches Some(k) ==> 0 <= k < i,
        decreases starts.len() - i,
    {
        assert(s.take(i as int + 1).drop_last() =~= s.take(i as int));
        match starts[i] {
            Some(x) => match best {
                None => {
                    best = Some(i);
                },
                Some(j) => {
                    let y = starts[j].unwrap();
                    if x < y {
                        best = Some(i);
                    }
                },
            },
            None => {},
        }
        i += 1;
    }
    assert(s.take(i as int) =~= s);
    best
}

/// A stream of the tokens of a source, found by the patterns of a [`RegexTokenizer`].
///
/// A pattern whose earliest match is empty would never move the stream on; the stream
/// then ends with a `MiscError` ("empty match") at the match position instead.
pub struct RegexTokenStream {
    token_defs: Vec<RegexTokenDef>,
    source: String,
    chars: Vec<char>,
    pos: usize,
}

impl RegexTokenStream {
    #[verifier::type_invariant]
    spec fn stream_ok(&self) -> bool {
        &&& self.chars@ == self.source@
        &&& self.pos <= self.chars.len()
        &&& self.chars.len() < isize::MAX
    }

    spec fn all_described(&self) -> bool {
        forall|k: int| 0 <= k < self.token_defs.len() ==> (#[trigger] self.token_defs@[k]).regex.described()
    }

    spec fn patterns(&self) -> PatternView {
        Seq::new(
            self.token_defs.len() as nat,
            |k: int| (self.token_defs@[k].token_type, self.token_defs@[k].regex.pattern()),
        )
    }
}

proof fn lemma_regex_tokens_shape(pats: PatternView, src: Seq<char>, i: int)
    requires
        0 <= i <= src.len(),
    ensures
        forall|k: int|
            0 <= k < regex_tokens(pats, src, i).len() - 1 ==> !is_terminal(
                #[trigger] regex_tokens(pats, src, i)[k],
            ),
        is_terminal(regex_tokens(pats, src, i).last()),
        0 < regex_tokens(pats, src, i).len() <= src.len() - i + 1,
    decreases src.len() - i,
{
    let text = src.subrange(i, src.len() as int);
    match earliest(match_starts(pats, text)) {
        None => {},
        Some(k) => {
            let am = regex_split(pats[k].1, text)->0;
            let end = i + am.0.len() + am.1.len();
            if am.1.len() != 0 && i < end <= src.len() {
                lemma_regex_tokens_shape(pats, src, end);
                let rest = regex_tokens(pats, src, end);
                let all = regex_tokens(pats, src, i);
                assert(all == seq![all[0]] + rest);
                assert forall|j: int| 0 <= j < all.len() - 1 implies !is_terminal(
                    #[trigger] all[j],
                ) by {
                    if j > 0 {
                        assert(all[j] == rest[j - 1]);
                        assert(!is_terminal(rest[j - 1]));
                    }
                }
                assert(all.last() == rest.last());
            }
        },
    }
}

impl TokenStream for RegexTokenStream {
    closed spec fn pending(&self) -> Seq<TokenResult> {
        if self.all_described() {
            regex_tokens(self.patterns(), self.chars@, self.pos as int)
        } else {
            Seq::empty()
        }
    }

    fn next(&mut self) -> (r: Result<TokenInfo, ParseError>) {
        proof {
            use_type_invariant(&*self);
        }
        let ghost pats = self.patterns();
        let ghost described = self.all_described();
        let ghost src = self.chars@;
        let text = self.source.as_str().substring_char(self.pos, self.chars.len());
        let ghost tv = text@;
        let mut starts: Vec<Option<usize>> = Vec::new();
        let mut splits: Vec<Option<(String, String)>> = Vec::new();
        let mut k: usize = 0;
        while k < self.token_defs.len()
            invariant
                k <= self.token_defs.len(),
                pats == self.patterns(),
                described == self.all_described(),
                tv == text@,
                starts.len() == k,
                splits.len() == k,
                tv.len() <= src.len(),
                src == self.chars@,
                self.chars.len() < isize::MAX,
                forall|j: int|
                    0 <= j < k ==> match (#[trigger] splits@[j]) {
                        Some((a, m)) => (described ==> regex_split(pats[j].1, tv) == Some(
                            (a@, m@),
                        )) && a@.len() + m@.len() <= tv.len() && starts@[j] == Some(
                            a@.len() as usize,
                        ),
                        None => (described ==> regex_split(pats[j].1, tv) is None)
                            && starts@[j] is None,
                    },
            decreases self.token_defs.len() - k,
        {
            let sp = find_split(&self.token_defs[k].regex, text);
            assert(described ==> self.token_defs@[k as int].regex.described());
            let st = match &sp {
                Some((a, _)) => Some(a.as_str().unicode_len()),
                None => None,
            };
            starts.push(st);
            splits.push(sp);
            k += 1;
        }
        proof {
            if described {
            assert forall|j: int| 0 <= j < starts.len() implies (#[trigger] starts_view(
                starts@,
            )[j]) == match_starts(pats, tv)[j] by {
                match splits@[j] {
                    Some((a, m)) => {},
                    None => {},
                }
            }
            assert(starts_view(starts@) =~= match_starts(pats, tv));
            }
        }
        match earliest_index(&starts) {
            None => {
                let end = self.chars.len();
                self.pos = end;
                Ok(TokenInfo { token: None, pos_in_chars: end })
            },
            Some(k) => {
                let (a, m) = splits.remove(k).unwrap();
                let start = self.pos + a.as_str().unicode_len();
                let len = m.as_str().unicode_len();
                if len == 0 {
                    return Err(
                        ParseError::MiscError {
                            pos_in_chars: start,
                            message: String::from_str("empty match"),
                        },
                    );
                }
                let token_type = self.token_defs[k].token_type;
                self.pos = start + len;
                Ok(TokenInfo { token: Some(Token { token_type, token_str: m }), pos_in_chars: start })
            },
        }
    }
}

impl Tokenizer for RegexTokenizer {
    type Stream = RegexTokenStream;

    open spec fn describes_tokens(&self) -> bool {
        self.all_described()
    }

    open spec fn tokens_of(&self, source: Seq<char>) -> Seq<TokenResult> {
        regex_tokens(self.patterns(), source, 0)
    }

    fn token_stream(&self, source: &str) -> (s: RegexTokenStream) {
        let mut token_defs: Vec<RegexTokenDef> = Vec::new();
        let mut k: usize = 0;
        while k < self.token_defs.len()
            invariant
                k <= self.token_defs.len(),
                token_defs.len() == k,
                forall|j: int|
                    0 <= j < k ==> (#[trigger] token_defs@[j]).token_type == self.token_defs@[j].token_type
                        && token_defs@[j].regex.pattern() == self.token_defs@[j].regex.pattern()
                        && token_defs@[j].regex.described() == self.token_defs@[j].regex.described(),
            decreases self.token_defs.len() - k,
        {
            let def = &self.token_defs[k];
            token_defs.push(RegexTokenDef { token_type: def.token_type, regex: def.regex.copy() });
            k += 1;
        }
        let s = RegexTokenStream {
            token_defs,
            source: source.to_owned(),
            chars: chars_of(source),
            pos: 0,
        };
        proof {
            assert(s.patterns() =~= self.patterns());
            assert(s.token_defs.len() == self.token_defs.len());
            if self.all_described() {
                assert forall|k: int| 0 <= k < s.token_defs.len() implies (
                #[trigger] s.token_defs@[k]).regex.described() by {
                    assert(self.token_defs@[k].regex.described());
                }
            }
            if s.all_described() {
                assert forall|k: int| 0 <= k < self.token_defs.len() implies (
                #[trigger] self.token_defs@[k]).regex.described() by {
                    assert(s.token_defs@[k].regex.described());
                }
            }
            assert(s.all_described() == self.all_described());
            lemma_regex_tokens_shape(self.patterns(), source@, 0);
        }
        s
    }
}

} // verus!
