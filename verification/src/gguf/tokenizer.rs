//! BPE tokenizer extracted from GGUF metadata fields.
//!
//! Reads `tokenizer.ggml.*` metadata to build a byte-pair-encoding tokenizer
//! that can encode text to token IDs and decode token IDs back to text.

use super::metadata::{lookup, text_array, GgufMetadata, MetaValue};
use crate::text::{chars_of, find_char, first_of, first_of_is_first};
use vstd::hash_map::StringHashMap;
use vstd::prelude::*;
use vstd::string::*;

verus! {

/// Error type for tokenizer operations.
#[derive(Debug)]
pub enum TokenizerError {
    /// A metadata field is not there, or is no array of strings.
    MissingField(&'static str),
    /// A merge rule without a space.
    InvalidMerge(String),
    /// A kind of tokenizer that cannot be built.
    UnsupportedModel(String),
}

/// What a tokenizer was built from: its tokens by number, its merge rules by rank ("left right"),
/// and the numbers of the two special tokens.
#[verifier::ext_equal]
pub struct TokenizerModel {
    pub tokens: Seq<Seq<char>>,
    pub merges: Seq<Seq<char>>,
    pub bos_id: u32,
    pub eos_id: u32,
}

/// The two sides of a merge rule, which its first space parts.
pub open spec fn sides(rule: Seq<char>) -> (Seq<char>, Seq<char>) {
    let at = first_of(rule, ' ');
    (rule.take(at), rule.skip(at + 1))
}

/// Whether a merge rule has two sides.
pub open spec fn is_rule(rule: Seq<char>) -> bool {
    first_of(rule, ' ') < rule.len()
}

/// The rank of each pair that the rules merge. Of two equal rules the later counts.
pub open spec fn ranks(rules: Seq<Seq<char>>) -> Map<(Seq<char>, Seq<char>), nat>
    decreases rules.len(),
{
    if rules.len() == 0 {
        Map::empty()
    } else {
        ranks(rules.drop_last()).insert(sides(rules.last()), (rules.len() - 1) as nat)
    }
}

/// The number of each token. Of two equal tokens the later counts.
pub open spec fn numbers(tokens: Seq<Seq<char>>) -> Map<Seq<char>, u32>
    decreases tokens.len(),
{
    if tokens.len() == 0 {
        Map::empty()
    } else {
        numbers(tokens.drop_last()).insert(tokens.last(), (tokens.len() - 1) as u32)
    }
}

/// The rank of the pair of symbols that starts at `i`.
pub open spec fn pair_rank(rules: Seq<Seq<char>>, symbols: Seq<Seq<char>>, i: int) -> Option<nat> {
    if 0 <= i < symbols.len() - 1 && ranks(rules).contains_key((symbols[i], symbols[i + 1])) {
        Some(ranks(rules)[(symbols[i], symbols[i + 1])])
    } else {
        None
    }
}

/// Whether the pair at `i` is the one to merge: the first of those with the lowest rank.
pub open spec fn is_best(rules: Seq<Seq<char>>, symbols: Seq<Seq<char>>, i: int) -> bool {
    &&& pair_rank(rules, symbols, i) is Some
    &&& forall|j: int|
        (#[trigger] pair_rank(rules, symbols, j)) matches Some(other) ==> pair_rank(
            rules,
            symbols,
            i,
        )->Some_0 < other || (pair_rank(rules, symbols, i)->Some_0 == other && i <= j)
}

/// Whether some pair of neighbours can be merged.
pub open spec fn mergeable(rules: Seq<Seq<char>>, symbols: Seq<Seq<char>>) -> bool {
    exists|i: int| is_best(rules, symbols, i)
}

/// The symbols with the pair at `i` made one symbol.
pub open spec fn merged_at(symbols: Seq<Seq<char>>, i: int) -> Seq<Seq<char>> {
    symbols.update(i, symbols[i] + symbols[i + 1]).remove(i + 1)
}

/// The symbols that are left when the best pair is merged again and again until none is left.
pub open spec fn fully_merged(rules: Seq<Seq<char>>, symbols: Seq<Seq<char>>) -> Seq<Seq<char>>
    decreases symbols.len(),
{
    if mergeable(rules, symbols) {
        let i = choose|i: int| is_best(rules, symbols, i);
        if 0 <= i < symbols.len() - 1 {
            fully_merged(rules, merged_at(symbols, i))
        } else {
            symbols
        }
    } else {
        symbols
    }
}

/// The characters of a text as symbols.
pub open spec fn characters(text: Seq<char>) -> Seq<Seq<char>> {
    text.map_values(|c: char| seq![c])
}

/// The number of a symbol; 0 for one that is no token.
pub open spec fn number_of(tokens: Seq<Seq<char>>, symbol: Seq<char>) -> u32 {
    if numbers(tokens).contains_key(symbol) {
        numbers(tokens)[symbol]
    } else {
        0
    }
}

/// The token with the number `id`; "<unk>" for a number that no token has.
pub open spec fn token_of(tokens: Seq<Seq<char>>, id: u32) -> Seq<char> {
    if id < tokens.len() {
        tokens[id as int]
    } else {
        "<unk>"@
    }
}

/// Texts joined in order.
pub open spec fn joined(texts: Seq<Seq<char>>) -> Seq<char>
    decreases texts.len(),
{
    if texts.len() == 0 {
        Seq::empty()
    } else {
        joined(texts.drop_last()) + texts.last()
    }
}

impl TokenizerModel {
    /// The token numbers of a text.
    pub open spec fn encoded(self, text: Seq<char>) -> Seq<u32> {
        fully_merged(self.merges, characters(text)).map_values(
            |s: Seq<char>| number_of(self.tokens, s),
        )
    }

    /// The text of token numbers.
    pub open spec fn decoded(self, ids: Seq<u32>) -> Seq<char> {
        joined(ids.map_values(|id: u32| token_of(self.tokens, id)))
    }
}

/// The first of the rules that has no space, if any.
pub open spec fn bad_rule(rules: Seq<Seq<char>>) -> Option<Seq<char>>
    decreases rules.len(),
{
    if rules.len() == 0 {
        None
    } else if !is_rule(rules[0]) {
        Some(rules[0])
    } else {
        bad_rule(rules.drop_first())
    }
}

/// The array of strings under `key`; empty where there is none.
pub open spec fn texts_under(
    metadata: Map<Seq<char>, MetaValue>,
    key: Seq<char>,
) -> Seq<Seq<char>> {
    match lookup(metadata, key) {
        Some(v) => match text_array(v) {
            Some(texts) => texts,
            None => Seq::empty(),
        },
        None => Seq::empty(),
    }
}

/// Whether there is an array of strings under `key`.
pub open spec fn has_texts(metadata: Map<Seq<char>, MetaValue>, key: Seq<char>) -> bool {
    lookup(metadata, key) matches Some(v) && text_array(v) is Some
}

/// The 32-bit integer under `key`, or `default`.
pub open spec fn word_under(
    metadata: Map<Seq<char>, MetaValue>,
    key: Seq<char>,
    default: u32,
) -> u32 {
    match lookup(metadata, key) {
        Some(MetaValue::Uint32(v)) => v,
        _ => default,
    }
}

/// The tokenizer that metadata describe.
pub open spec fn described(metadata: Map<Seq<char>, MetaValue>) -> TokenizerModel {
    TokenizerModel {
        tokens: texts_under(metadata, "tokenizer.ggml.tokens"@),
        merges: texts_under(metadata, "tokenizer.ggml.merges"@),
        bos_id: word_under(metadata, "tokenizer.ggml.bos_token_id"@, 1),
        eos_id: word_under(metadata, "tokenizer.ggml.eos_token_id"@, 2),
    }
}

/// A rule from its two sides.
pub(crate) open spec fn rule_of(left: Seq<char>, right: Seq<char>) -> Seq<char> {
    left + seq![' '] + right
}

/// The rank of each rule as a text.
spec fn rule_ranks(rules: Seq<Seq<char>>) -> Map<Seq<char>, usize>
    decreases rules.len(),
{
    if rules.len() == 0 {
        Map::empty()
    } else {
        rule_ranks(rules.drop_last()).insert(rules.last(), (rules.len() - 1) as usize)
    }
}

/// A rule is made of its sides again, and the left side holds no space.
pub(crate) proof fn rule_from_sides(rule: Seq<char>)
    requires
        is_rule(rule),
    ensures
        rule_of(sides(rule).0, sides(rule).1) == rule,
        first_of(sides(rule).0, ' ') == sides(rule).0.len(),
{
    first_of_is_first(rule, ' ');
    assert(rule_of(sides(rule).0, sides(rule).1) =~= rule);
    first_of_is_first(sides(rule).0, ' ');
}

/// The sides of a rule are those that it was made of, as long as the left one holds no space.
pub(crate) proof fn sides_of_rule(left: Seq<char>, right: Seq<char>)
    requires
        first_of(left, ' ') == left.len(),
    ensures
        is_rule(rule_of(left, right)),
        sides(rule_of(left, right)) == (left, right),
{
    let rule: Seq<char> = rule_of(left, right);
    first_of_is_first(left, ' ');
    first_of_is_first(rule, ' ');
    assert(rule[left.len() as int] == ' ');
    let at: int = first_of(rule, ' ');
    if at < left.len() {
        assert(left[at] == rule[at]);
    }
    assert(rule.take(at) =~= left);
    assert(rule.skip(at + 1) =~= right);
}

/// The rank of a pair is that of the rule which it makes.
proof fn pair_has_rank_of_rule(rules: Seq<Seq<char>>, left: Seq<char>, right: Seq<char>)
    requires
        forall|i: int| 0 <= i < rules.len() ==> is_rule(#[trigger] rules[i]),
        rules.len() <= usize::MAX,
    ensures
        ranks(rules).contains_key((left, right)) <==> (first_of(left, ' ') == left.len()
            && rule_ranks(rules).contains_key(rule_of(left, right))),
        ranks(rules).contains_key((left, right)) ==> ranks(rules)[(left, right)] == rule_ranks(
            rules,
        )[rule_of(left, right)],
    decreases rules.len(),
{
    if rules.len() > 0 {
        let shorter: Seq<Seq<char>> = rules.drop_last();
        assert forall|i: int| 0 <= i < shorter.len() implies is_rule(#[trigger] shorter[i]) by {
            assert(is_rule(rules[i]));
        }
        pair_has_rank_of_rule(shorter, left, right);
        let last: Seq<char> = rules.last();
        assert(is_rule(rules[rules.len() - 1]));
        rule_from_sides(last);
        if first_of(left, ' ') == left.len() {
            sides_of_rule(left, right);
        }
    }
}

proof fn no_bad_rule(rules: Seq<Seq<char>>)
    requires
        bad_rule(rules) is None,
    ensures
        forall|i: int| 0 <= i < rules.len() ==> is_rule(#[trigger] rules[i]),
    decreases rules.len(),
{
    if rules.len() > 0 {
        no_bad_rule(rules.drop_first());
        assert forall|i: int| 0 <= i < rules.len() implies is_rule(#[trigger] rules[i]) by {
            if i > 0 {
                assert(is_rule(rules.drop_first()[i - 1]));
            }
        }
    }
}

/// There is at most one best pair.
proof fn best_is_unique(rules: Seq<Seq<char>>, symbols: Seq<Seq<char>>, i: int, j: int)
    requires
        is_best(rules, symbols, i),
        is_best(rules, symbols, j),
    ensures
        i == j,
{
    assert(pair_rank(rules, symbols, i) is Some);
    assert(pair_rank(rules, symbols, j) is Some);
}

/// A BPE tokenizer built from GGUF metadata.
pub struct GgufTokenizer {
    /// Token string -> token ID
    token_to_id: StringHashMap<u32>,
    /// Token ID -> token string
    id_to_token: Vec<String>,
    /// Merge rule ("left right") -> merge rank
    merges: StringHashMap<usize>,
    /// The merge rules in order of their ranks
    rules: Vec<String>,
    /// Beginning-of-sequence token ID.
    bos_id: u32,
    /// End-of-sequence token ID.
    eos_id: u32,
}

/// The texts of strings.
pub open spec fn texts_of(strings: Seq<String>) -> Seq<Seq<char>> {
    strings.map_values(|s: String| s@)
}

impl Clone for GgufTokenizer {
    fn clone(&self) -> (r: GgufTokenizer)
        ensures
            r.model() == self.model(),
    {
        proof {
            use_type_invariant(self);
        }
        let (token_to_id, id_to_token) = Self::index_tokens(&Self::borrowed(&self.id_to_token));
        let (merges, rules) = match Self::index_rules(&Self::borrowed(&self.rules)) {
            Err(_) => (StringHashMap::new(), Vec::new()),
            Ok(indexed) => indexed,
        };
        GgufTokenizer {
            token_to_id,
            id_to_token,
            merges,
            rules,
            bos_id: self.bos_id,
            eos_id: self.eos_id,
        }
    }
}

impl GgufTokenizer {
    #[verifier::type_invariant]
    spec fn inv(self) -> bool {
        &&& self.token_to_id@ == numbers(texts_of(self.id_to_token@))
        &&& self.merges@ == rule_ranks(texts_of(self.rules@))
        &&& bad_rule(texts_of(self.rules@)) is None
    }

    /// What this tokenizer was built from.
    pub closed spec fn model(self) -> TokenizerModel {
        TokenizerModel {
            tokens: texts_of(self.id_to_token@),
            merges: texts_of(self.rules@),
            bos_id: self.bos_id,
            eos_id: self.eos_id,
        }
    }

    /// Build a tokenizer from GGUF metadata fields.
    ///
    /// Reads:
    /// - `tokenizer.ggml.tokens` -> vocabulary (array of strings)
    /// - `tokenizer.ggml.merges` -> BPE merge rules (array of "a b" strings), none if it is missing
    /// - `tokenizer.ggml.bos_token_id`, `tokenizer.ggml.eos_token_id`, 1 and 2 if they are missing
    pub fn from_metadata(metadata: &GgufMetadata) -> (r: Result<GgufTokenizer, TokenizerError>)
        ensures
            !has_texts(metadata@, "tokenizer.ggml.tokens"@) ==> (r matches Err(
                TokenizerError::MissingField(field),
            ) && field@ == "tokenizer.ggml.tokens"@),
            has_texts(metadata@, "tokenizer.ggml.tokens"@) ==> match bad_rule(
                described(metadata@).merges,
            ) {
                Some(rule) => r matches Err(TokenizerError::InvalidMerge(s)) && s@ == rule,
                None => r matches Ok(t) && t.model() == described(metadata@),
            },
    {
        let tokens: Vec<&str> = match metadata.get_array_string("tokenizer.ggml.tokens") {
            None => {
                return Err(TokenizerError::MissingField("tokenizer.ggml.tokens"));
            },
            Some(tokens) => tokens,
        };
        let rules: Vec<&str> = match metadata.get_array_string("tokenizer.ggml.merges") {
            None => Vec::new(),
            Some(rules) => rules,
        };
        let ghost model: TokenizerModel = described(metadata@);
        proof {
            assert(tokens@.map_values(|t: &str| t@) =~= model.tokens);
            assert(rules@.map_values(|t: &str| t@) =~= model.merges);
        }
        let (token_to_id, id_to_token) = Self::index_tokens(&tokens);
        let (merges, rules) = match Self::index_rules(&rules) {
            Err(rule) => {
                return Err(TokenizerError::InvalidMerge(rule));
            },
            Ok(indexed) => indexed,
        };
        let bos_id: u32 = match metadata.get_u32("tokenizer.ggml.bos_token_id") {
            Some(id) => id,
            None => 1,
        };
        let eos_id: u32 = match metadata.get_u32("tokenizer.ggml.eos_token_id") {
            Some(id) => id,
            None => 2,
        };
        Ok(GgufTokenizer { token_to_id, id_to_token, merges, rules, bos_id, eos_id })
    }

    fn index_tokens(tokens: &Vec<&str>) -> (r: (StringHashMap<u32>, Vec<String>))
        ensures
            r.0@ == numbers(tokens@.map_values(|t: &str| t@)),
            texts_of(r.1@) == tokens@.map_values(|t: &str| t@),
    {
        let ghost texts: Seq<Seq<char>> = tokens@.map_values(|t: &str| t@);
        let mut token_to_id: StringHashMap<u32> = StringHashMap::new();
        let mut id_to_token: Vec<String> = Vec::new();
        let mut i: usize = 0;
        while i < tokens.len()
            invariant
                i <= tokens.len(),
                texts == tokens@.map_values(|t: &str| t@),
                token_to_id@ == numbers(texts.take(i as int)),
                texts_of(id_to_token@) == texts.take(i as int),
            decreases tokens.len() - i,
        {
            let token: &str = tokens[i];
            proof {
                assert(texts.take(i + 1).drop_last() =~= texts.take(i as int));
                assert(texts.take(i + 1).last() == token@);
            }
            token_to_id.insert(token.to_owned(), i as u32);
            id_to_token.push(token.to_owned());
            assert(texts_of(id_to_token@) =~= texts.take(i + 1));
            i = i + 1;
        }
        assert(texts.take(texts.len() as int) =~= texts);
        (token_to_id, id_to_token)
    }

    /// Ranks the rules, or gives back the first one without a space.
    fn index_rules(rules: &Vec<&str>) -> (r: Result<(StringHashMap<usize>, Vec<String>), String>)
        ensures
            ({
                let texts = rules@.map_values(|t: &str| t@);
                match bad_rule(texts) {
                    Some(rule) => r matches Err(s) && s@ == rule,
                    None => r matches Ok((merges, ranked)) && merges@ == rule_ranks(texts)
                        && texts_of(ranked@) == texts,
                }
            }),
    {
        let ghost texts: Seq<Seq<char>> = rules@.map_values(|t: &str| t@);
        let mut merges: StringHashMap<usize> = StringHashMap::new();
        let mut ranked: Vec<String> = Vec::new();
        let mut i: usize = 0;
        assert(texts.skip(0) =~= texts);
        while i < rules.len()
            invariant
                i <= rules.len(),
                texts == rules@.map_values(|t: &str| t@),
                merges@ == rule_ranks(texts.take(i as int)),
                texts_of(ranked@) == texts.take(i as int),
                bad_rule(texts) == bad_rule(texts.skip(i as int)),
            decreases rules.len() - i,
        {
            let rule: &str = rules[i];
            let chars: Vec<char> = chars_of(rule);
            assert(chars@.skip(0) =~= chars@);
            assert(texts.skip(i as int)[0] == rule@);
            if find_char(chars.as_slice(), ' ', 0) == chars.len() {
                return Err(rule.to_owned());
            }
            proof {
                assert(texts.skip(i as int).drop_first() =~= texts.skip(i + 1));
                assert(texts.take(i + 1).drop_last() =~= texts.take(i as int));
                assert(texts.take(i + 1).last() == rule@);
            }
            merges.insert(rule.to_owned(), i);
            ranked.push(rule.to_owned());
            assert(texts_of(ranked@) =~= texts.take(i + 1));
            i = i + 1;
        }
        assert(texts.take(texts.len() as int) =~= texts);
        Ok((merges, ranked))
    }

    /// The strings as slices.
    fn borrowed(strings: &Vec<String>) -> (r: Vec<&str>)
        ensures
            r@.map_values(|t: &str| t@) == texts_of(strings@),
    {
        let mut slices: Vec<&str> = Vec::new();
        let mut i: usize = 0;
        while i < strings.len()
            invariant
                i <= strings.len(),
                slices.len() == i,
                forall|k: int| 0 <= k < i ==> (#[trigger] slices@[k])@ == strings@[k]@,
            decreases strings.len() - i,
        {
            slices.push(strings[i].as_str());
            i = i + 1;
        }
        assert(slices@.map_values(|t: &str| t@) =~= texts_of(strings@));
        slices
    }

    /// The rank of a pair of symbols.
    fn rank(&self, left: &str, right: &str) -> (r: Option<usize>)
        ensures
            r is Some <==> ranks(self.model().merges).contains_key((left@, right@)),
            r matches Some(rank) ==> rank == ranks(self.model().merges)[(left@, right@)],
    {
        proof {
            use_type_invariant(self);
            no_bad_rule(texts_of(self.rules@));
            assert(self.rules.len() <= usize::MAX);
            pair_has_rank_of_rule(texts_of(self.rules@), left@, right@);
        }
        let chars: Vec<char> = chars_of(left);
        assert(chars@.skip(0) =~= chars@);
        if find_char(chars.as_slice(), ' ', 0) < chars.len() {
            return None;
        }
        let mut rule: String = left.to_owned();
        rule.append(" ");
        rule.append(right);
        proof {
            reveal_strlit(" ");
            assert(" "@ =~= seq![' ']);
            assert(rule@ =~= rule_of(left@, right@));
        }
        match self.merges.get(rule.as_str()) {
            Some(rank) => Some(*rank),
            None => None,
        }
    }

    /// Find the best (lowest rank) merge pair.
    fn best_pair(&self, symbols: &Vec<String>) -> (r: Option<usize>)
        ensures
            r is Some <==> mergeable(self.model().merges, texts_of(symbols@)),
            r matches Some(i) ==> is_best(self.model().merges, texts_of(symbols@), i as int),
            r matches Some(i) ==> i + 1 < symbols.len(),
    {
        let ghost rules: Seq<Seq<char>> = self.model().merges;
        let ghost texts: Seq<Seq<char>> = texts_of(symbols@);
        let mut best: Option<(usize, usize)> = None;
        let mut i: usize = 0;
        while i + 1 < symbols.len()
            invariant
                symbols.len() > 0 ==> i + 1 <= symbols.len(),
                symbols.len() == 0 ==> i == 0,
                rules == self.model().merges,
                texts == texts_of(symbols@),
                match best {
                    None => forall|j: int|
                        0 <= j < i ==> (#[trigger] pair_rank(rules, texts, j)) is None,
                    Some((at, rank)) => {
                        &&& at < i
                        &&& pair_rank(rules, texts, at as int) == Some(rank as nat)
                        &&& forall|j: int|
                            0 <= j < i ==> ((#[trigger] pair_rank(rules, texts, j)) matches Some(
                                other,
                            ) ==> rank < other || (rank == other && at <= j))
                    },
                },
            decreases symbols.len() - i,
        {
            let rank: Option<usize> = self.rank(symbols[i].as_str(), symbols[i + 1].as_str());
            assert(pair_rank(rules, texts, i as int) == match rank {
                Some(r) => Some(r as nat),
                None => None,
            });
            match rank {
                None => {},
                Some(r) => match best {
                    None => {
                        best = Some((i, r));
                    },
                    Some((at, lowest)) => {
                        if r < lowest {
                            best = Some((i, r));
                        }
                    },
                },
            }
            i = i + 1;
        }
        match best {
            None => {
                assert forall|j: int| !is_best(rules, texts, j) by {
                    assert(pair_rank(rules, texts, j) is None);
                }
                None
            },
            Some((at, _)) => {
                assert(is_best(rules, texts, at as int));
                Some(at)
            },
        }
    }

    /// Encode text into token IDs using BPE.
    ///
    /// Algorithm:
    /// 1. Split text into individual characters (initial tokens)
    /// 2. Iteratively merge the highest-priority (lowest rank) pair
    /// 3. Map resulting tokens to vocabulary IDs
    pub fn encode(&self, text: &str) -> (r: Vec<u32>)
        ensures
            r@ == self.model().encoded(text@),
    {
        let ghost rules: Seq<Seq<char>> = self.model().merges;
        let mut symbols: Vec<String> = Self::split_characters(text);
        loop
            invariant
                rules == self.model().merges,
                fully_merged(rules, characters(text@)) == fully_merged(rules, texts_of(symbols@)),
            ensures
                fully_merged(rules, characters(text@)) == texts_of(symbols@),
            decreases symbols.len(),
        {
            match self.best_pair(&symbols) {
                None => {
                    break;
                },
                Some(at) => {
                    let ghost before: Seq<Seq<char>> = texts_of(symbols@);
                    let mut merged: String = symbols[at].clone();
                    merged.append(symbols[at + 1].as_str());
                    symbols[at] = merged;
                    symbols.remove(at + 1);
                    proof {
                        assert(texts_of(symbols@) =~= merged_at(before, at as int));
                        let chosen: int = choose|i: int| is_best(rules, before, i);
                        best_is_unique(rules, before, chosen, at as int);
                    }
                },
            }
        }
        self.numbers_of(&symbols)
    }

    /// The characters of a text, each as a string.
    fn split_characters(text: &str) -> (r: Vec<String>)
        ensures
            texts_of(r@) == characters(text@),
    {
        let n: usize = text.unicode_len();
        let mut symbols: Vec<String> = Vec::new();
        let mut i: usize = 0;
        while i < n
            invariant
                n == text@.len(),
                i <= n,
                texts_of(symbols@) == characters(text@).take(i as int),
            decreases n - i,
        {
            let symbol: String = text.substring_char(i, i + 1).to_owned();
            assert(symbol@ =~= seq![text@[i as int]]);
            let ghost before: Seq<String> = symbols@;
            symbols.push(symbol);
            proof {
                assert(characters(text@)[i as int] == symbol@);
                assert(texts_of(symbols@) =~= texts_of(before).push(symbol@));
                assert(characters(text@).take(i + 1) =~= characters(text@).take(i as int).push(
                    symbol@,
                ));
            }
            i = i + 1;
        }
        assert(characters(text@).take(n as int) =~= characters(text@));
        symbols
    }

    /// Map symbols to vocabulary IDs.
    fn numbers_of(&self, symbols: &Vec<String>) -> (r: Vec<u32>)
        ensures
            r@ == texts_of(symbols@).map_values(
                |s: Seq<char>| number_of(self.model().tokens, s),
            ),
    {
        proof {
            use_type_invariant(self);
        }
        let mut ids: Vec<u32> = Vec::new();
        let mut i: usize = 0;
        while i < symbols.len()
            invariant
                i <= symbols.len(),
                self.token_to_id@ == numbers(self.model().tokens),
                ids.len() == i,
                forall|k: int|
                    0 <= k < i ==> ids@[k] == number_of(
                        self.model().tokens,
                        #[trigger] symbols@[k]@,
                    ),
            decreases symbols.len() - i,
        {
            let id: u32 = match self.token_to_id.get(symbols[i].as_str()) {
                Some(id) => *id,
                None => 0,
            };
            ids.push(id);
            i = i + 1;
        }
        assert(ids@ =~= texts_of(symbols@).map_values(
            |s: Seq<char>| number_of(self.model().tokens, s),
        ));
        ids
    }

    /// Decode token IDs back into text.
    pub fn decode(&self, tokens: &[u32]) -> (r: String)
        ensures
            r@ == self.model().decoded(tokens@),
    {
        let ghost texts: Seq<Seq<char>> = tokens@.map_values(
            |id: u32| token_of(self.model().tokens, id),
        );
        let mut text: String = String::new();
        let mut i: usize = 0;
        assert(texts.take(0) =~= Seq::<Seq<char>>::empty());
        while i < tokens.len()
            invariant
                i <= tokens.len(),
                texts == tokens@.map_values(|id: u32| token_of(self.model().tokens, id)),
                text@ == joined(texts.take(i as int)),
            decreases tokens.len() - i,
        {
            let id: u32 = tokens[i];
            proof {
                assert(texts.take(i + 1).drop_last() =~= texts.take(i as int));
                assert(texts.take(i + 1).last() == token_of(self.model().tokens, id));
            }
            if (id as usize) < self.id_to_token.len() {
                text.append(self.id_to_token[id as usize].as_str());
            } else {
                text.append("<unk>");
            }
            i = i + 1;
        }
        assert(texts.take(texts.len() as int) =~= texts);
        text
    }

    /// Get the beginning-of-sequence token ID.
    pub fn bos_token_id(&self) -> (r: u32)
        ensures
            r == self.model().bos_id,
    {
        self.bos_id
    }

    /// Get the end-of-sequence token ID.
    pub fn eos_token_id(&self) -> (r: u32)
        ensures
            r == self.model().eos_id,
    {
        self.eos_id
    }

    /// Get vocabulary size.
    pub fn vocab_size(&self) -> (r: usize)
        ensures
            r == self.model().tokens.len(),
    {
        self.id_to_token.len()
    }
}

/// Joining two lists one after the other joins their texts.
pub proof fn joined_concat(a: Seq<Seq<char>>, b: Seq<Seq<char>>)
    ensures
        joined(a + b) == joined(a) + joined(b),
    decreases b.len(),
{
    if b.len() == 0 {
        assert(a + b =~= a);
        assert(joined(a) + joined(b) =~= joined(a));
    } else {
        assert((a + b).drop_last() =~= a + b.drop_last());
        joined_concat(a, b.drop_last());
        assert(joined(a) + (joined(b.drop_last()) + b.last()) =~= (joined(a) + joined(
            b.drop_last(),
        )) + b.last());
    }
}

proof fn joined_one(text: Seq<char>)
    ensures
        joined(seq![text]) == text,
{
    let one: Seq<Seq<char>> = seq![text];
    assert(one.drop_last() =~= Seq::<Seq<char>>::empty());
    assert(joined(one.drop_last()) == Seq::<char>::empty());
    assert(Seq::<char>::empty() + text =~= text);
}

proof fn merging_one_pair_keeps_text(symbols: Seq<Seq<char>>, i: int)
    requires
        0 <= i < symbols.len() - 1,
    ensures
        joined(merged_at(symbols, i)) == joined(symbols),
{
    let front: Seq<Seq<char>> = symbols.take(i);
    let back: Seq<Seq<char>> = symbols.skip(i + 2);
    let pair: Seq<Seq<char>> = seq![symbols[i]] + seq![symbols[i + 1]];
    let one: Seq<Seq<char>> = seq![symbols[i] + symbols[i + 1]];
    assert(symbols =~= (front + pair) + back);
    assert(merged_at(symbols, i) =~= (front + one) + back);
    joined_concat(front + pair, back);
    joined_concat(front + one, back);
    joined_concat(front, pair);
    joined_concat(front, one);
    joined_concat(seq![symbols[i]], seq![symbols[i + 1]]);
    joined_one(symbols[i]);
    joined_one(symbols[i + 1]);
    joined_one(symbols[i] + symbols[i + 1]);
}

/// Merging never changes the text that the symbols make up, and never makes more of them.
pub proof fn merging_keeps_text(rules: Seq<Seq<char>>, symbols: Seq<Seq<char>>)
    ensures
        joined(fully_merged(rules, symbols)) == joined(symbols),
        fully_merged(rules, symbols).len() <= symbols.len(),
    decreases symbols.len(),
{
    if mergeable(rules, symbols) {
        let i: int = choose|i: int| is_best(rules, symbols, i);
        if 0 <= i < symbols.len() - 1 {
            merging_one_pair_keeps_text(symbols, i);
            merging_keeps_text(rules, merged_at(symbols, i));
        }
    }
}

/// When merging is done, no rule applies any more.
pub proof fn merging_is_complete(rules: Seq<Seq<char>>, symbols: Seq<Seq<char>>)
    ensures
        !mergeable(rules, fully_merged(rules, symbols)),
    decreases symbols.len(),
{
    if mergeable(rules, symbols) {
        let i: int = choose|i: int| is_best(rules, symbols, i);
        assert(pair_rank(rules, symbols, i) is Some);
        merging_is_complete(rules, merged_at(symbols, i));
    }
}

/// The characters of a text make up the text.
pub proof fn characters_make_text(text: Seq<char>)
    ensures
        joined(characters(text)) == text,
    decreases text.len(),
{
    if text.len() > 0 {
        characters_make_text(text.drop_last());
        assert(characters(text).drop_last() =~= characters(text.drop_last()));
        assert(characters(text).last() == seq![text.last()]);
        assert(text.drop_last() + seq![text.last()] =~= text);
    } else {
        assert(characters(text) =~= Seq::<Seq<char>>::empty());
        assert(text =~= Seq::<char>::empty());
    }
}

/// A token's number leads back to the token, as long as numbers are not used twice.
proof fn number_leads_back(tokens: Seq<Seq<char>>, token: Seq<char>)
    requires
        tokens.contains(token),
        tokens.len() <= 0x1_0000_0000,
    ensures
        numbers(tokens).contains_key(token),
        numbers(tokens)[token] < tokens.len(),
        tokens[numbers(tokens)[token] as int] == token,
    decreases tokens.len(),
{
    if token != tokens.last() {
        let i: int = choose|i: int| 0 <= i < tokens.len() && tokens[i] == token;
        assert(tokens.drop_last()[i] == token);
        number_leads_back(tokens.drop_last(), token);
    }
}

/// Decoding what was encoded gives the text back, as long as every symbol that is left after
/// merging is a token. (Another symbol is encoded as number 0, like the token that is called so.)
pub proof fn known_symbols_decode_back(m: TokenizerModel, text: Seq<char>)
    requires
        m.tokens.len() <= 0x1_0000_0000,
        forall|i: int|
            0 <= i < fully_merged(m.merges, characters(text)).len() ==> m.tokens.contains(
                #[trigger] fully_merged(m.merges, characters(text))[i],
            ),
    ensures
        m.decoded(m.encoded(text)) == text,
{
    let symbols: Seq<Seq<char>> = fully_merged(m.merges, characters(text));
    let texts: Seq<Seq<char>> = m.encoded(text).map_values(|id: u32| token_of(m.tokens, id));
    assert forall|i: int| 0 <= i < symbols.len() implies texts[i] == symbols[i] by {
        number_leads_back(m.tokens, symbols[i]);
    }
    assert(texts =~= symbols);
    merging_keeps_text(m.merges, characters(text));
    characters_make_text(text);
}

/// The text that a rule makes of its two sides.
pub open spec fn made_by(rule: Seq<char>) -> Seq<char> {
    sides(rule).0 + sides(rule).1
}

/// Whether a symbol is one of `given`, or what a rule makes.
pub open spec fn given_or_made(
    rules: Seq<Seq<char>>,
    given: Seq<Seq<char>>,
    symbol: Seq<char>,
) -> bool {
    given.contains(symbol) || exists|k: int|
        0 <= k < rules.len() && made_by(#[trigger] rules[k]) == symbol
}

proof fn ranked_pair_has_rule(rules: Seq<Seq<char>>, pair: (Seq<char>, Seq<char>))
    requires
        ranks(rules).contains_key(pair),
    ensures
        exists|k: int| 0 <= k < rules.len() && sides(#[trigger] rules[k]) == pair,
    decreases rules.len(),
{
    if sides(rules.last()) == pair {
        assert(sides(rules[rules.len() - 1]) == pair);
    } else {
        let shorter: Seq<Seq<char>> = rules.drop_last();
        ranked_pair_has_rule(shorter, pair);
        let k: int = choose|k: int| 0 <= k < shorter.len() && sides(#[trigger] shorter[k]) == pair;
        assert(sides(rules[k]) == pair);
    }
}

proof fn merging_makes_by_rules(
    rules: Seq<Seq<char>>,
    given: Seq<Seq<char>>,
    symbols: Seq<Seq<char>>,
)
    requires
        forall|i: int|
            0 <= i < symbols.len() ==> given_or_made(rules, given, #[trigger] symbols[i]),
    ensures
        forall|i: int|
            0 <= i < fully_merged(rules, symbols).len() ==> given_or_made(
                rules,
                given,
                #[trigger] fully_merged(rules, symbols)[i],
            ),
    decreases symbols.len(),
{
    if mergeable(rules, symbols) {
        let at: int = choose|i: int| is_best(rules, symbols, i);
        assert(pair_rank(rules, symbols, at) is Some);
        let pair: (Seq<char>, Seq<char>) = (symbols[at], symbols[at + 1]);
        ranked_pair_has_rule(rules, pair);
        let k: int = choose|k: int| 0 <= k < rules.len() && sides(#[trigger] rules[k]) == pair;
        assert(made_by(rules[k]) == symbols[at] + symbols[at + 1]);
        let merged: Seq<Seq<char>> = merged_at(symbols, at);
        assert forall|i: int| 0 <= i < merged.len() implies given_or_made(
            rules,
            given,
            #[trigger] merged[i],
        ) by {
            if i < at {
                assert(merged[i] == symbols[i]);
            } else if i > at {
                assert(merged[i] == symbols[i + 1]);
            }
        }
        merging_makes_by_rules(rules, given, merged);
        assert(fully_merged(rules, symbols) == fully_merged(rules, merged));
    }
}

/// Every symbol that is left after merging is a character of the text, or the two sides of a rule
/// joined.
pub proof fn merged_symbols_are_known(rules: Seq<Seq<char>>, text: Seq<char>)
    ensures
        forall|i: int|
            0 <= i < fully_merged(rules, characters(text)).len() ==> given_or_made(
                rules,
                characters(text),
                #[trigger] fully_merged(rules, characters(text))[i],
            ),
{
    merging_makes_by_rules(rules, characters(text), characters(text));
}

/// Decoding what was encoded gives the text back, as long as the vocabulary has every character
/// of the text and everything that a rule makes.
pub proof fn decode_inverts_encode(m: TokenizerModel, text: Seq<char>)
    requires
        m.tokens.len() <= 0x1_0000_0000,
        forall|i: int| 0 <= i < text.len() ==> m.tokens.contains(seq![#[trigger] text[i]]),
        forall|k: int|
            0 <= k < m.merges.len() ==> m.tokens.contains(made_by(#[trigger] m.merges[k])),
    ensures
        m.decoded(m.encoded(text)) == text,
{
    merged_symbols_are_known(m.merges, text);
    let symbols: Seq<Seq<char>> = fully_merged(m.merges, characters(text));
    assert forall|i: int| 0 <= i < symbols.len() implies m.tokens.contains(
        #[trigger] symbols[i],
    ) by {
        assert(given_or_made(m.merges, characters(text), symbols[i]));
        if characters(text).contains(symbols[i]) {
            let j: int = choose|j: int|
                0 <= j < characters(text).len() && characters(text)[j] == symbols[i];
            assert(m.tokens.contains(seq![text[j]]));
        }
    }
    known_symbols_decode_back(m, text);
}

/// An empty text has no tokens, and no tokens make an empty text.
pub proof fn nothing_encodes_to_nothing(m: TokenizerModel)
    ensures
        m.encoded(Seq::empty()) == Seq::<u32>::empty(),
        m.decoded(Seq::empty()) == Seq::<char>::empty(),
{
    let none: Seq<Seq<char>> = characters(Seq::empty());
    merging_keeps_text(m.merges, none);
    assert(m.encoded(Seq::empty()) =~= Seq::<u32>::empty());
    assert(Seq::<u32>::empty().map_values(|id: u32| token_of(m.tokens, id)) =~= Seq::<
        Seq<char>,
    >::empty());
}

/// A text never has more tokens than characters.
pub proof fn encoding_is_no_longer(m: TokenizerModel, text: Seq<char>)
    ensures
        m.encoded(text).len() <= text.len(),
{
    merging_keeps_text(m.merges, characters(text));
}

} // verus!
