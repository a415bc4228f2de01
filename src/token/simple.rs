//! A tokenizer that looks symbols up in a table, longest symbol first.
use vstd::prelude::*;
use crate::error::ParseError;
use crate::token::{
    Token, TokenInfo, TokenInfoView, TokenResult, TokenStream, TokenType, Tokenizer, chars_of,
};

verus! {

/// A symbol of a table: its text and the token type it stands for.
pub type SymbolView = (Seq<char>, TokenType);

/// `text` occurs in `src` at index `i`.
pub open spec fn occurs_at(text: Seq<char>, src: Seq<char>, i: int) -> bool {
    0 <= i && i + text.len() <= src.len() && src.subrange(i, i + text.len()) == text
}

/// The first entry from index `e` on whose symbol occurs in `src` at `i`.
pub open spec fn first_match_from(table: Seq<SymbolView>, src: Seq<char>, i: int, e: int) -> Option<
    int,
>
    decreases table.len() - e,
{
    if e < 0 || e >= table.len() {
        None
    } else if occurs_at(table[e].0, src, i) {
        Some(e)
    } else {
        first_match_from(table, src, i, e + 1)
    }
}

/// The first entry of the table whose symbol occurs in `src` at `i`.
pub open spec fn first_match(table: Seq<SymbolView>, src: Seq<char>, i: int) -> Option<int> {
    first_match_from(table, src, i, 0)
}

/// The first index from `i` on where some symbol occurs, or the length of `src`.
pub open spec fn scan_from(table: Seq<SymbolView>, src: Seq<char>, i: int) -> int
    decreases src.len() - i,
{
    if i >= src.len() {
        src.len() as int
    } else if first_match(table, src, i) is Some {
        i
    } else {
        scan_from(table, src, i + 1)
    }
}

/// What a stream over `src` hands out from index `i` on: a token at each place where a
/// symbol occurs, the first entry in table order winning; then the end of the source.
/// Characters where no symbol occurs are skipped.
pub open spec fn simple_tokens(table: Seq<SymbolView>, src: Seq<char>, i: int) -> Seq<TokenResult>
    decreases src.len() - i,
{
    let m = scan_from(table, src, i);
    if m >= src.len() || i < 0 {
        seq![Ok(TokenInfoView { token: None, pos: src.len() as int })]
    } else {
        let sym = table[first_match(table, src, m)->0];
        let tok = Ok(TokenInfoView { token: Some((sym.1, sym.0)), pos: m });
        if sym.0.len() > 0 && i <= m && m + sym.0.len() <= src.len() {
            seq![tok] + simple_tokens(table, src, m + sym.0.len())
        } else {
            seq![tok]
        }
    }
}

/// Symbols ordered by length, longest first.
pub open spec fn longest_first(table: Seq<SymbolView>) -> bool {
    forall|a: int, b: int| 0 <= a < b < table.len() ==> table[a].0.len() >= table[b].0.len()
}

/// The number of leading symbols at least `n` characters long.
pub open spec fn insertion_index(s: Seq<SymbolView>, n: nat) -> int
    decreases s.len(),
{
    if s.len() == 0 || s[0].0.len() < n {
        0
    } else {
        1 + insertion_index(s.drop_first(), n)
    }
}

/// The symbols ordered longest first; symbols of equal length keep their order.
pub open spec fn sort_longest_first(s: Seq<SymbolView>) -> Seq<SymbolView>
    decreases s.len(),
{
    if s.len() == 0 {
        s
    } else {
        let r = sort_longest_first(s.drop_last());
        r.insert(insertion_index(r, s.last().0.len()), s.last())
    }
}

/// Token specification for [`SimpleTokenizer`]: one symbol per token type.
pub struct SimpleTokenSpec {
    /// The symbol of pointer increment (`>`).
    pub ptr_inc: String,
    /// The symbol of pointer decrement (`<`).
    pub ptr_dec: String,
    /// The symbol of data increment (`+`).
    pub data_inc: String,
    /// The symbol of data decrement (`-`).
    pub data_dec: String,
    /// The symbol of output (`.`).
    pub output: String,
    /// The symbol of input (`,`).
    pub input: String,
    /// The symbol of loop head (`[`).
    pub loop_head: String,
    /// The symbol of loop tail (`]`).
    pub loop_tail: String,
}

/// Token specification for [`SimpleTokenizer`] with any number of symbols per token type.
pub struct SimpleMultiTokenSpec {
    pub ptr_inc: Vec<String>,
    pub ptr_dec: Vec<String>,
    pub data_inc: Vec<String>,
    pub data_dec: Vec<String>,
    pub output: Vec<String>,
    pub input: Vec<String>,
    pub loop_head: Vec<String>,
    pub loop_tail: Vec<String>,
}

/// An entry of the symbol table.
#[derive(Debug, PartialEq, Eq)]
pub struct SimpleTokenDef {
    /// The symbol.
    pub token: String,
    /// The number of characters of the symbol.
    pub char_count: usize,
    /// The token type the symbol stands for.
    pub token_type: TokenType,
}

impl SimpleTokenDef {
    pub open spec fn symbol(&self) -> SymbolView {
        (self.token@, self.token_type)
    }

    pub fn new(token: &String, token_type: TokenType) -> (r: Self)
        ensures
            r.symbol() == (token@, token_type),
            r.char_count == token@.len(),
    {
        let token = token.clone();
        let char_count = token.as_str().unicode_len();
        SimpleTokenDef { token, char_count, token_type }
    }
}

pub open spec fn symbols_of(defs: Seq<SimpleTokenDef>) -> Seq<SymbolView> {
    Seq::new(defs.len(), |i: int| defs[i].symbol())
}

/// A tokenizer over a table of symbols ordered longest first.
pub struct SimpleTokenizer {
    token_table: Vec<SimpleTokenDef>,
}

impl SimpleTokenizer {
    #[verifier::type_invariant]
    spec fn table_ok(&self) -> bool {
        &&& forall|e: int|
            0 <= e < self.token_table.len() ==> {
                &&& (#[trigger] self.token_table@[e]).char_count == self.token_table@[e].token@.len()
                &&& self.token_table@[e].token@.len() > 0
            }
        &&& longest_first(symbols_of(self.token_table@))
    }

    pub closed spec fn symbols(&self) -> Seq<SymbolView> {
        symbols_of(self.token_table@)
    }

    /// The symbol table, longest symbols first.
    pub fn token_table(&self) -> (r: &[SimpleTokenDef])
        ensures
            symbols_of(r@) == self.symbols(),
            forall|e: int| 0 <= e < r@.len() ==> (#[trigger] r@[e]).char_count == r@[e].token@.len(),
    {
        proof {
            use_type_invariant(self);
        }
        self.token_table.as_slice()
    }
}

} // verus!

verus! {

proof fn lemma_insertion_index(s: Seq<SymbolView>, n: nat, k: int)
    requires
        0 <= k <= s.len(),
        forall|a: int| 0 <= a < k ==> (#[trigger] s[a]).0.len() >= n,
        k == s.len() || s[k].0.len() < n,
    ensures
        insertion_index(s, n) == k,
    decreases k,
{
    if k > 0 {
        let t = s.drop_first();
        assert forall|a: int| 0 <= a < k - 1 implies (#[trigger] t[a]).0.len() >= n by {
            assert(t[a] == s[a + 1]);
        }
        lemma_insertion_index(t, n, k - 1);
    }
}

proof fn lemma_insert_keeps_order(r: Seq<SymbolView>, x: SymbolView, k: int)
    requires
        longest_first(r),
        0 <= k <= r.len(),
        forall|a: int| 0 <= a < k ==> (#[trigger] r[a]).0.len() >= x.0.len(),
        k == r.len() || r[k].0.len() < x.0.len(),
    ensures
        longest_first(r.insert(k, x)),
{
    let t = r.insert(k, x);
    assert forall|a: int, b: int| 0 <= a < b < t.len() implies t[a].0.len() >= t[b].0.len() by {
        if b < k {
        } else if b == k {
        } else if a < k {
            assert(t[b] == r[b - 1]);
        } else if a == k {
            assert(t[b] == r[b - 1]);
            assert(r[k].0.len() >= r[b - 1].0.len() || b - 1 == k);
        } else {
            assert(t[a] == r[a - 1]);
            assert(t[b] == r[b - 1]);
        }
    }
}

/// Orders `defs` longest first, keeping the order of symbols of equal length.
fn sort_table(defs: &Vec<SimpleTokenDef>) -> (r: SimpleTokenizer)
    requires
        forall|e: int| 0 <= e < defs.len() ==> (#[trigger] defs@[e]).token@.len() > 0,
    ensures
        r.symbols() == sort_longest_first(symbols_of(defs@)),
        longest_first(r.symbols()),
{
    let ghost s = symbols_of(defs@);
    let mut table: Vec<SimpleTokenDef> = Vec::new();
    let mut i: usize = 0;
    assert(s.take(0) =~= Seq::<SymbolView>::empty());
    while i < defs.len()
        invariant
            i <= defs.len(),
            s == symbols_of(defs@),
            forall|e: int| 0 <= e < defs.len() ==> (#[trigger] defs@[e]).token@.len() > 0,
            symbols_of(table@) == sort_longest_first(s.take(i as int)),
            longest_first(symbols_of(table@)),
            forall|e: int|
                0 <= e < table.len() ==> {
                    &&& (#[trigger] table@[e]).char_count == table@[e].token@.len()
                    &&& table@[e].token@.len() > 0
                },
        decreases defs.len() - i,
    {
        let d = SimpleTokenDef::new(&defs[i].token, defs[i].token_type);
        let n = d.char_count;
        let mut k: usize = 0;
        while k < table.len() && table[k].char_count >= n
            invariant
                k <= table.len(),
                forall|e: int|
                    0 <= e < table.len() ==> (#[trigger] table@[e]).char_count
                        == table@[e].token@.len(),
                forall|a: int| 0 <= a < k ==> (#[trigger] table@[a]).token@.len() >= n,
            decreases table.len() - k,
        {
            k += 1;
        }
        let ghost old_table = table@;
        let ghost sy = symbols_of(old_table);
        proof {
            assert(forall|a: int| 0 <= a < k ==> (#[trigger] sy[a]).0.len() >= n);
            lemma_insertion_index(sy, n as nat, k as int);
            lemma_insert_keeps_order(sy, d.symbol(), k as int);
            assert(s.take(i as int + 1).drop_last() =~= s.take(i as int));
            assert(s.take(i as int + 1).last() == d.symbol());
        }
        table.insert(k, d);
        proof {
            assert(symbols_of(table@) =~= sy.insert(k as int, d.symbol()));
        }
        i += 1;
    }
    assert(s.take(i as int) =~= s);
    SimpleTokenizer { token_table: table }
}

impl SimpleTokenSpec {
    /// A tokenizer for these symbols, which must not be empty.
    pub fn to_tokenizer(&self) -> (r: SimpleTokenizer)
        requires
            self.ptr_inc@.len() > 0,
            self.ptr_dec@.len() > 0,
            self.data_inc@.len() > 0,
            self.data_dec@.len() > 0,
            self.output@.len() > 0,
            self.input@.len() > 0,
            self.loop_head@.len() > 0,
            self.loop_tail@.len() > 0,
        ensures
            r.symbols() == sort_longest_first(
                seq![
                    (self.ptr_inc@, TokenType::PInc),
                    (self.ptr_dec@, TokenType::PDec),
                    (self.data_inc@, TokenType::DInc),
                    (self.data_dec@, TokenType::DDec),
                    (self.output@, TokenType::Output),
                    (self.input@, TokenType::Input),
                    (self.loop_head@, TokenType::LoopHead),
                    (self.loop_tail@, TokenType::LoopTail),
                ],
            ),
            longest_first(r.symbols()),
    {
        let token_table = vec![
            SimpleTokenDef::new(&self.ptr_inc, TokenType::PInc),
            SimpleTokenDef::new(&self.ptr_dec, TokenType::PDec),
            SimpleTokenDef::new(&self.data_inc, TokenType::DInc),
            SimpleTokenDef::new(&self.data_dec, TokenType::DDec),
            SimpleTokenDef::new(&self.output, TokenType::Output),
            SimpleTokenDef::new(&self.input, TokenType::Input),
            SimpleTokenDef::new(&self.loop_head, TokenType::LoopHead),
            SimpleTokenDef::new(&self.loop_tail, TokenType::LoopTail),
        ];
        assert(symbols_of(token_table@) =~= seq![
            (self.ptr_inc@, TokenType::PInc),
            (self.ptr_dec@, TokenType::PDec),
            (self.data_inc@, TokenType::DInc),
            (self.data_dec@, TokenType::DDec),
            (self.output@, TokenType::Output),
            (self.input@, TokenType::Input),
            (self.loop_head@, TokenType::LoopHead),
            (self.loop_tail@, TokenType::LoopTail),
        ]);
        sort_table(&token_table)
    }
}

/// The symbols of a list, each standing for `token_type`.
pub open spec fn symbols_for(tokens: Seq<String>, token_type: TokenType) -> Seq<SymbolView> {
    Seq::new(tokens.len(), |i: int| (tokens[i]@, token_type))
}

pub open spec fn nonempty_all(tokens: Seq<String>) -> bool {
    forall|i: int| 0 <= i < tokens.len() ==> (#[trigger] tokens[i])@.len() > 0
}

impl SimpleMultiTokenSpec {
    pub open spec fn symbols(&self) -> Seq<SymbolView> {
        symbols_for(self.ptr_inc@, TokenType::PInc) + symbols_for(self.ptr_dec@, TokenType::PDec)
            + symbols_for(self.data_inc@, TokenType::DInc) + symbols_for(
            self.data_dec@,
            TokenType::DDec,
        ) + symbols_for(self.output@, TokenType::Output) + symbols_for(
            self.input@,
            TokenType::Input,
        ) + symbols_for(self.loop_head@, TokenType::LoopHead) + symbols_for(
            self.loop_tail@,
            TokenType::LoopTail,
        )
    }

    /// A tokenizer for these symbols, which must not be empty.
    pub fn to_tokenizer(&self) -> (r: SimpleTokenizer)
        requires
            nonempty_all(self.ptr_inc@),
            nonempty_all(self.ptr_dec@),
            nonempty_all(self.data_inc@),
            nonempty_all(self.data_dec@),
            nonempty_all(self.output@),
            nonempty_all(self.input@),
            nonempty_all(self.loop_head@),
            nonempty_all(self.loop_tail@),
        ensures
            r.symbols() == sort_longest_first(self.symbols()),
            longest_first(r.symbols()),
    {
        let mut token_table: Vec<SimpleTokenDef> = Vec::new();
        Self::to_token_defs(&self.ptr_inc, TokenType::PInc, &mut token_table);
        Self::to_token_defs(&self.ptr_dec, TokenType::PDec, &mut token_table);
        Self::to_token_defs(&self.data_inc, TokenType::DInc, &mut token_table);
        Self::to_token_defs(&self.data_dec, TokenType::DDec, &mut token_table);
        Self::to_token_defs(&self.output, TokenType::Output, &mut token_table);
        Self::to_token_defs(&self.input, TokenType::Input, &mut token_table);
        Self::to_token_defs(&self.loop_head, TokenType::LoopHead, &mut token_table);
        Self::to_token_defs(&self.loop_tail, TokenType::LoopTail, &mut token_table);
        assert(symbols_of(token_table@) =~= self.symbols());
        sort_table(&token_table)
    }

    /// Appends an entry for each of `tokens`, standing for `token_type`.
    fn to_token_defs(tokens: &Vec<String>, token_type: TokenType, defs: &mut Vec<SimpleTokenDef>)
        requires
            nonempty_all(tokens@),
            forall|e: int| 0 <= e < old(defs).len() ==> (#[trigger] old(defs)@[e]).token@.len() > 0,
        ensures
            symbols_of(final(defs)@) == symbols_of(old(defs)@) + symbols_for(tokens@, token_type),
            forall|e: int|
                0 <= e < final(defs).len() ==> (#[trigger] final(defs)@[e]).token@.len() > 0,
    {
        let mut i: usize = 0;
        while i < tokens.len()
            invariant
                i <= tokens.len(),
                nonempty_all(tokens@),
                symbols_of(defs@) == symbols_of(old(defs)@) + symbols_for(tokens@, token_type).take(
                    i as int,
                ),
                forall|e: int| 0 <= e < defs.len() ==> (#[trigger] defs@[e]).token@.len() > 0,
            decreases tokens.len() - i,
        {
            let d = SimpleTokenDef::new(&tokens[i], token_type);
            let ghost before = defs@;
            defs.push(d);
            assert(symbols_of(defs@) =~= symbols_of(before).push(d.symbol()));
            assert(symbols_for(tokens@, token_type).take(i as int + 1) =~= symbols_for(
                tokens@,
                token_type,
            ).take(i as int).push(d.symbol()));
            assert(symbols_of(defs@) =~= symbols_of(old(defs)@) + symbols_for(tokens@, token_type).take(
                i as int + 1,
            ));
            i += 1;
        }
        assert(symbols_for(tokens@, token_type).take(i as int) =~= symbols_for(tokens@, token_type));
    }
}

} // verus!

verus! {

pub open spec fn nonempty_symbols(t: Seq<SymbolView>) -> bool {
    forall|e: int| 0 <= e < t.len() ==> (#[trigger] t[e]).0.len() > 0
}

proof fn lemma_scan_from_range(t: Seq<SymbolView>, src: Seq<char>, i: int)
    requires
        0 <= i <= src.len(),
    ensures
        i <= scan_from(t, src, i) <= src.len(),
        scan_from(t, src, i) < src.len() ==> first_match(t, src, scan_from(t, src, i)) is Some,
    decreases src.len() - i,
{
    if i < src.len() && first_match(t, src, i) is None {
        lemma_scan_from_range(t, src, i + 1);
    }
}

proof fn lemma_first_match_from_range(t: Seq<SymbolView>, src: Seq<char>, i: int, e: int)
    requires
        0 <= e,
    ensures
        first_match_from(t, src, i, e) is Some ==> {
            let m = first_match_from(t, src, i, e)->0;
            &&& e <= m < t.len()
            &&& occurs_at(t[m].0, src, i)
            &&& forall|f: int| e <= f < m ==> !occurs_at(#[trigger] t[f].0, src, i)
        },
        first_match_from(t, src, i, e) is None ==> forall|f: int|
            e <= f < t.len() ==> !occurs_at(#[trigger] t[f].0, src, i),
    decreases t.len() - e,
{
    if e < t.len() && !occurs_at(t[e].0, src, i) {
        lemma_first_match_from_range(t, src, i, e + 1);
    }
}

/// Every stream of the symbol-table tokenizer is well formed.
proof fn lemma_simple_tokens_well_formed(t: Seq<SymbolView>, src: Seq<char>, i: int)
    requires
        nonempty_symbols(t),
        0 <= i <= src.len(),
    ensures
        forall|k: int|
            0 <= k < simple_tokens(t, src, i).len() - 1 ==> !crate::token::is_terminal(
                #[trigger] simple_tokens(t, src, i)[k],
            ),
        crate::token::is_terminal(simple_tokens(t, src, i).last()),
        0 < simple_tokens(t, src, i).len() <= src.len() - i + 1,
    decreases src.len() - i,
{
    lemma_scan_from_range(t, src, i);
    let m = scan_from(t, src, i);
    if m < src.len() {
        lemma_first_match_from_range(t, src, m, 0);
        let sym = t[first_match(t, src, m)->0];
        let rest = simple_tokens(t, src, m + sym.0.len());
        lemma_simple_tokens_well_formed(t, src, m + sym.0.len());
        let all = simple_tokens(t, src, i);
        assert(all == seq![all[0]] + rest);
        assert forall|k: int| 0 <= k < all.len() - 1 implies !crate::token::is_terminal(
            #[trigger] all[k],
        ) by {
            if k > 0 {
                assert(all[k] == rest[k - 1]);
                assert(!crate::token::is_terminal(rest[k - 1]));
            }
        }
        assert(all.last() == rest.last());
    }
}

/// An entry of the table that a stream holds: the symbol as characters and as text.
struct TableEntry {
    chars: Vec<char>,
    token: String,
    token_type: TokenType,
}

/// A stream of the tokens of a source, found by the symbol table of a [`SimpleTokenizer`].
pub struct SimpleTokenStream {
    table: Vec<TableEntry>,
    source: Vec<char>,
    pos: usize,
}

impl SimpleTokenStream {
    #[verifier::type_invariant]
    spec fn stream_ok(&self) -> bool {
        &&& forall|e: int|
            0 <= e < self.table.len() ==> {
                &&& (#[trigger] self.table@[e]).chars@ == self.table@[e].token@
                &&& self.table@[e].chars@.len() > 0
            }
        &&& self.pos <= self.source.len()
        &&& self.source.len() < isize::MAX
    }

    spec fn entries(&self) -> Seq<SymbolView> {
        Seq::new(self.table.len() as nat, |e: int| (self.table@[e].chars@, self.table@[e].token_type))
    }

    fn new(source: &str, token_table: &Vec<SimpleTokenDef>) -> (r: Self)
        requires
            source@.len() < isize::MAX,
            forall|e: int| 0 <= e < token_table.len() ==> (#[trigger] token_table@[e]).token@.len() > 0,
        ensures
            r.entries() == symbols_of(token_table@),
            r.source@ == source@,
            r.pos == 0,
    {
        let mut table: Vec<TableEntry> = Vec::new();
        let mut i: usize = 0;
        while i < token_table.len()
            invariant
                i <= token_table.len(),
                forall|e: int|
                    0 <= e < token_table.len() ==> (#[trigger] token_table@[e]).token@.len() > 0,
                table.len() == i,
                forall|e: int|
                    0 <= e < i ==> {
                        &&& (#[trigger] table@[e]).chars@ == table@[e].token@
                        &&& table@[e].chars@.len() > 0
                        &&& table@[e].token@ == token_table@[e].token@
                        &&& table@[e].token_type == token_table@[e].token_type
                    },
            decreases token_table.len() - i,
        {
            let def = &token_table[i];
            table.push(
                TableEntry {
                    chars: chars_of(def.token.as_str()),
                    token: def.token.clone(),
                    token_type: def.token_type,
                },
            );
            i += 1;
        }
        let r = SimpleTokenStream { table, source: chars_of(source), pos: 0 };
        assert(r.entries() =~= symbols_of(token_table@));
        r
    }
}

/// Whether `text` occurs in `source` at `pos`.
fn occurs_in(source: &Vec<char>, pos: usize, text: &Vec<char>) -> (r: bool)
    ensures
        r == occurs_at(text@, source@, pos as int),
{
    if text.len() > source.len() || pos > source.len() - text.len() {
        return false;
    }
    let mut j: usize = 0;
    while j < text.len()
        invariant
            j <= text.len(),
            pos + text.len() <= source.len(),
            source@.subrange(pos as int, pos + j) =~= text@.take(j as int),
        decreases text.len() - j,
    {
        if source[pos + j] != text[j] {
            assert(source@.subrange(pos as int, pos + text.len())[j as int] != text@[j as int]);
            return false;
        }
        j += 1;
        assert(source@.subrange(pos as int, pos + j) =~= text@.take(j as int));
    }
    assert(text@.take(j as int) =~= text@);
    true
}

/// The first entry of the table whose symbol occurs in `source` at `pos`.
fn find_token_at(source: &Vec<char>, pos: usize, table: &Vec<TableEntry>) -> (r: Option<usize>)
    ensures
        r == match first_match(
            Seq::new(table.len() as nat, |e: int| (table@[e].chars@, table@[e].token_type)),
            source@,
            pos as int,
        ) {
            Some(e) => Some(e as usize),
            None => None::<usize>,
        },
{
    let ghost t = Seq::new(table.len() as nat, |e: int| (table@[e].chars@, table@[e].token_type));
    let mut e: usize = 0;
    while e < table.len()
        invariant
            e <= table.len(),
            t == Seq::new(table.len() as nat, |e: int| (table@[e].chars@, table@[e].token_type)),
            first_match(t, source@, pos as int) == first_match_from(t, source@, pos as int, e as int),
        decreases table.len() - e,
    {
        if occurs_in(source, pos, &table[e].chars) {
            return Some(e);
        }
        e += 1;
    }
    None
}

impl TokenStream for SimpleTokenStream {
    closed spec fn pending(&self) -> Seq<TokenResult> {
        simple_tokens(self.entries(), self.source@, self.pos as int)
    }

    fn next(&mut self) -> (r: Result<TokenInfo, ParseError>) {
        proof {
            use_type_invariant(&*self);
        }
        let ghost t = self.entries();
        let ghost src = self.source@;
        let ghost start = self.pos as int;
        let mut i = self.pos;
        while i < self.source.len()
            invariant
                start <= i <= src.len(),
                src == self.source@,
                t == self.entries(),
                start == self.pos,
                old(self).pending() == simple_tokens(t, src, start),
                scan_from(t, src, start) == scan_from(t, src, i as int),
                forall|e: int|
                    0 <= e < self.table.len() ==> {
                        &&& (#[trigger] self.table@[e]).chars@ == self.table@[e].token@
                        &&& self.table@[e].chars@.len() > 0
                    },
                self.source.len() < isize::MAX,
            decreases src.len() - i,
        {
            if let Some(e) = find_token_at(&self.source, i, &self.table) {
                proof {
                    lemma_first_match_from_range(t, src, i as int, 0);
                }
                let entry = &self.table[e];
                let info = TokenInfo {
                    token: Some(Token { token_type: entry.token_type, token_str: entry.token.clone() }),
                    pos_in_chars: i,
                };
                proof {
                    assert(t[e as int] == (entry.chars@, entry.token_type));
                    assert(first_match(t, src, i as int) == Some(e as int));
                    assert(scan_from(t, src, i as int) == i as int);
                    assert(info@ == TokenInfoView {
                        token: Some((entry.token_type, entry.chars@)),
                        pos: i as int,
                    });
                    assert(simple_tokens(t, src, start) == seq![
                        Ok::<TokenInfoView, crate::error::ParseErrorView>(info@),
                    ] + simple_tokens(t, src, i + entry.chars@.len()));
                }
                self.pos = i + entry.chars.len();
                assert(self.entries() == t);
                return Ok(info);
            }
            i += 1;
        }
        self.pos = self.source.len();
        Ok(TokenInfo { token: None, pos_in_chars: self.source.len() })
    }
}

impl Tokenizer for SimpleTokenizer {
    type Stream = SimpleTokenStream;

    open spec fn describes_tokens(&self) -> bool {
        true
    }

    open spec fn tokens_of(&self, source: Seq<char>) -> Seq<TokenResult> {
        simple_tokens(self.symbols(), source, 0)
    }

    fn token_stream(&self, source: &str) -> (s: SimpleTokenStream) {
        proof {
            use_type_invariant(self);
        }
        let s = SimpleTokenStream::new(source, &self.token_table);
        proof {
            lemma_simple_tokens_well_formed(self.symbols(), source@, 0);
        }
        s
    }
}

} // verus!

verus! {

/// In a table ordered longest first, the symbol chosen at a position is a longest of
/// those that occur there: a shorter symbol never wins over a longer one.
pub proof fn lemma_longest_match(table: Seq<SymbolView>, src: Seq<char>, i: int)
    requires
        longest_first(table),
    ensures
        first_match(table, src, i) matches Some(e) ==> forall|f: int|
            0 <= f < table.len() && occurs_at(#[trigger] table[f].0, src, i) ==> table[f].0.len()
                <= table[e].0.len(),
{
    lemma_first_match_from_range(table, src, i, 0);
}

} // verus!

verus! {

/// Symbols of one length keep their order.
pub proof fn lemma_sort_same_length(s: Seq<SymbolView>, n: nat)
    requires
        forall|i: int| 0 <= i < s.len() ==> (#[trigger] s[i]).0.len() == n,
    ensures
        sort_longest_first(s) == s,
    decreases s.len(),
{
    if s.len() > 0 {
        let init = s.drop_last();
        assert forall|i: int| 0 <= i < init.len() implies (#[trigger] init[i]).0.len() == n by {
            assert(init[i] == s[i]);
        }
        lemma_sort_same_length(init, n);
        assert forall|a: int| 0 <= a < init.len() implies (#[trigger] init[a]).0.len() >= s.last().0.len() by {
            assert(init[a] == s[a]);
        }
        lemma_insertion_index(init, s.last().0.len(), init.len() as int);
        assert(init.insert(init.len() as int, s.last()) =~= s);
    }
}

} // verus!
