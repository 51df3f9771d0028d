//! Trading pairs written as `BASE_QUOTE`.

use vstd::prelude::*;

verus! {

/// The character that separates the base currency from the quote currency.
pub const SEPARATOR: char = '_';

/// A trading pair: the base currency and the quote currency it is priced in.
#[derive(Debug)]
pub struct Ticker {
    pub base: String,
    pub quote: String,
}

/// The two currency names of a trading pair, as text.
pub struct Pair {
    pub base: Seq<char>,
    pub quote: Seq<char>,
}

impl Pair {
    /// Both currencies are named, and the base holds no separator, so the
    /// first separator of the symbol is the one between the two.
    pub open spec fn wf(self) -> bool {
        &&& self.base.len() > 0
        &&& self.quote.len() > 0
        &&& !self.base.contains(SEPARATOR)
    }

    /// The symbol a pair is written as: base, separator, quote.
    pub open spec fn symbol(self) -> Seq<char> {
        self.base + seq![SEPARATOR] + self.quote
    }
}

/// The pair that a symbol names: the text before its first separator and the
/// text after it. A symbol without a separator, or with nothing on one side of
/// the first separator, names no pair.
pub open spec fn parse_symbol(symbol: Seq<char>) -> Option<Pair> {
    match symbol.index_of_first(SEPARATOR) {
        Some(at) => if 0 < at && at + 1 < symbol.len() {
            Some(Pair { base: symbol.take(at), quote: symbol.skip(at + 1) })
        } else {
            None
        },
        None => None,
    }
}

impl View for Ticker {
    type V = Pair;

    open spec fn view(&self) -> Pair {
        Pair { base: self.base@, quote: self.quote@ }
    }
}

impl Ticker {
    /// Splits `symbol` at its first separator. The result is `None` when the
    /// symbol holds no separator or when either side of it would be empty.
    pub fn new(symbol: &str) -> (result: Option<Ticker>)
        ensures
            match result {
                Some(ticker) => parse_symbol(symbol@) == Some(ticker@) && ticker@.wf(),
                None => parse_symbol(symbol@) is None,
            },
    {
        broadcast use vstd::string::group_string_axioms;

        let len: usize = symbol.unicode_len();
        let mut at: usize = 0;
        let mut found = false;
        for character in it: symbol.chars()
            invariant
                it.seq() == symbol@,
                len == symbol@.len(),
                at <= it.index(),
                found ==> at < it.index() && symbol@[at as int] == SEPARATOR,
                !found ==> at == it.index(),
                forall|k: int| 0 <= k < at ==> symbol@[k] != SEPARATOR,
        {
            if !found {
                if character == SEPARATOR {
                    found = true;
                } else {
                    at += 1;
                }
            }
        }
        proof {
            lemma_first_separator(symbol@, at as int);
            lemma_parse_then_write(symbol@);
        }
        if at == 0 || at >= len - 1 {
            return None;
        }
        let base = symbol.substring_char(0, at);
        let quote = symbol.substring_char(at + 1, len);
        Some(Ticker { base: base.to_owned(), quote: quote.to_owned() })
    }

    /// The symbol of the pair: base, separator, quote.
    pub fn to_string(&self) -> (symbol: String)
        ensures
            symbol@ == self@.symbol(),
    {
        proof {
            reveal_strlit("_");
        }
        let mut symbol = self.base.clone();
        symbol.append("_");
        symbol.append(self.quote.as_str());
        assert(symbol@ =~= self@.symbol());
        symbol
    }
}

/// The first separator of `symbol` is at `at` when no separator stands before
/// `at` and either one stands at `at` or `at` is the end of the symbol.
pub proof fn lemma_first_separator(symbol: Seq<char>, at: int)
    requires
        0 <= at <= symbol.len(),
        forall|k: int| 0 <= k < at ==> symbol[k] != SEPARATOR,
        at < symbol.len() ==> symbol[at] == SEPARATOR,
    ensures
        symbol.index_of_first(SEPARATOR) == if at < symbol.len() {
            Some(at)
        } else {
            None
        },
{
    symbol.index_of_first_ensures(SEPARATOR);
    if at < symbol.len() {
        let found = symbol.index_of_first(SEPARATOR).unwrap();
        assert(!(found < at));
        assert(!(at < found));
    }
}

/// A symbol with exactly one separator, and text on both sides of it, names
/// the pair made of the text before the separator and the text after it.
pub proof fn lemma_parse_one_separator(symbol: Seq<char>, at: int)
    requires
        0 < at < symbol.len() - 1,
        symbol[at] == SEPARATOR,
        forall|k: int| 0 <= k < symbol.len() && k != at ==> symbol[k] != SEPARATOR,
    ensures
        parse_symbol(symbol) == Some(
            Pair { base: symbol.subrange(0, at), quote: symbol.subrange(at + 1, symbol.len() as int) },
        ),
{
    lemma_first_separator(symbol, at);
}

/// A symbol without a separator names no pair.
pub proof fn lemma_parse_no_separator(symbol: Seq<char>)
    requires
        !symbol.contains(SEPARATOR),
    ensures
        parse_symbol(symbol) is None,
{
    symbol.index_of_first_ensures(SEPARATOR);
}

/// Whatever a symbol names is well formed and is written as that symbol.
pub proof fn lemma_parse_then_write(symbol: Seq<char>)
    ensures
        parse_symbol(symbol) matches Some(pair) ==> pair.wf() && pair.symbol() == symbol,
{
    symbol.index_of_first_ensures(SEPARATOR);
    if let Some(pair) = parse_symbol(symbol) {
        let at = symbol.index_of_first(SEPARATOR).unwrap();
        assert(pair.symbol() =~= symbol);
        if pair.base.contains(SEPARATOR) {
            let k = choose|k: int| 0 <= k < pair.base.len() && pair.base[k] == SEPARATOR;
            assert(symbol[k] == SEPARATOR);
        }
    }
}

/// A well-formed pair is named by the symbol it is written as.
pub proof fn lemma_write_then_parse(pair: Pair)
    requires
        pair.wf(),
    ensures
        parse_symbol(pair.symbol()) == Some(pair),
{
    let symbol = pair.symbol();
    let at = pair.base.len() as int;
    assert forall|k: int| 0 <= k < at implies symbol[k] != SEPARATOR by {
        assert(symbol[k] == pair.base[k]);
    }
    lemma_first_separator(symbol, at);
    assert(symbol.take(at) =~= pair.base);
    assert(symbol.skip(at + 1) =~= pair.quote);
}

} // verus!
