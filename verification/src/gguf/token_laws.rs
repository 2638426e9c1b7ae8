//! What encoding and decoding come to, said of the rules and the tokens themselves.

use super::metadata::{text_array, GgufMetadata, MetaValue};
use super::tokenizer::{
    bad_rule, characters, characters_make_text, described, fully_merged, is_best, is_rule, joined,
    mergeable, merged_at, merging_is_complete, merging_keeps_text, number_of, numbers, pair_rank,
    ranks, rule_from_sides, rule_of, sides, sides_of_rule, token_of, GgufTokenizer, TokenizerError,
};
use crate::text::first_of_is_first;
use vstd::prelude::*;

verus! {

/// Whether rule `k` merges the neighbours at `i`: it is written as the left one, a space and the
/// right one, where the left one holds no space, and no later rule is written in the same way.
pub open spec fn applies(
    rules: Seq<Seq<char>>,
    k: int,
    symbols: Seq<Seq<char>>,
    i: int,
) -> bool {
    &&& 0 <= k < rules.len()
    &&& 0 <= i < symbols.len() - 1
    &&& !symbols[i].contains(' ')
    &&& rules[k] == symbols[i] + seq![' '] + symbols[i + 1]
    &&& forall|l: int| k < l < rules.len() ==> rules[l] != rules[k]
}

/// Whether `after` is `before` with the neighbours at `i` made one symbol.
pub open spec fn joins_at(before: Seq<Seq<char>>, i: int, after: Seq<Seq<char>>) -> bool {
    &&& 0 <= i < before.len() - 1
    &&& after.len() == before.len() - 1
    &&& forall|j: int| 0 <= j < i ==> after[j] == #[trigger] before[j]
    &&& after[i] == before[i] + before[i + 1]
    &&& forall|j: int| i < j < after.len() ==> #[trigger] after[j] == before[j + 1]
}

/// Whether `after` comes from `before` by one merge: of all the rules that apply anywhere, the
/// first in the list is taken, and of the places where it applies, the leftmost.
pub open spec fn one_merge(
    rules: Seq<Seq<char>>,
    before: Seq<Seq<char>>,
    after: Seq<Seq<char>>,
) -> bool {
    exists|k: int, i: int|
        #![trigger applies(rules, k, before, i)]
        {
            &&& applies(rules, k, before, i)
            &&& joins_at(before, i, after)
            &&& forall|l: int, j: int| #[trigger]
                applies(rules, l, before, j) ==> k < l || (k == l && i <= j)
        }
}

/// The rank of a pair is the number of the last rule with these sides.
proof fn rank_is_last_rule(rules: Seq<Seq<char>>, pair: (Seq<char>, Seq<char>))
    ensures
        ranks(rules).contains_key(pair) <==> exists|k: int|
            0 <= k < rules.len() && sides(#[trigger] rules[k]) == pair,
        ranks(rules).contains_key(pair) ==> {
            let k = ranks(rules)[pair] as int;
            &&& 0 <= k < rules.len()
            &&& sides(rules[k]) == pair
            &&& forall|l: int| k < l < rules.len() ==> sides(#[trigger] rules[l]) != pair
        },
    decreases rules.len(),
{
    if rules.len() > 0 {
        let shorter: Seq<Seq<char>> = rules.drop_last();
        rank_is_last_rule(shorter, pair);
        if sides(rules.last()) == pair {
            assert(sides(rules[rules.len() - 1]) == pair);
        } else {
            if exists|k: int| 0 <= k < rules.len() && sides(#[trigger] rules[k]) == pair {
                let k: int = choose|k: int|
                    0 <= k < rules.len() && sides(#[trigger] rules[k]) == pair;
                assert(sides(shorter[k]) == pair);
            }
            if ranks(rules).contains_key(pair) {
                let k: int = ranks(shorter)[pair] as int;
                assert(sides(rules[k]) == pair);
                assert forall|l: int| k < l < rules.len() implies sides(#[trigger] rules[l])
                    != pair by {
                    if l < shorter.len() {
                        assert(sides(shorter[l]) != pair);
                    }
                }
            }
        }
    }
}

/// A rule without a space in `rules` is none.
proof fn rules_have_spaces(rules: Seq<Seq<char>>, k: int)
    requires
        0 <= k < rules.len(),
        rules[k].contains(' '),
    ensures
        is_rule(rules[k]),
{
    first_of_is_first(rules[k], ' ');
    let i: int = choose|i: int| 0 <= i < rules[k].len() && rules[k][i] == ' ';
    assert(rules[k][i] == ' ');
}

/// A pair has rank `k` exactly when rule `k` merges it.
proof fn ranked_is_applicable(rules: Seq<Seq<char>>, symbols: Seq<Seq<char>>, i: int)
    requires
        forall|k: int| 0 <= k < rules.len() ==> (#[trigger] rules[k]).contains(' '),
    ensures
        pair_rank(rules, symbols, i) matches Some(k) ==> applies(rules, k as int, symbols, i),
        forall|k: int| #[trigger]
            applies(rules, k, symbols, i) ==> pair_rank(rules, symbols, i) == Some(k as nat),
{
    if 0 <= i < symbols.len() - 1 {
        let left: Seq<char> = symbols[i];
        let right: Seq<char> = symbols[i + 1];
        let pair: (Seq<char>, Seq<char>) = (left, right);
        rank_is_last_rule(rules, pair);
        first_of_is_first(left, ' ');
        if pair_rank(rules, symbols, i) is Some {
            let k: int = ranks(rules)[pair] as int;
            rules_have_spaces(rules, k);
            rule_from_sides(rules[k]);
            assert(!left.contains(' '));
            assert(rules[k] =~= left + seq![' '] + right);
            assert forall|l: int| k < l < rules.len() implies rules[l] != rules[k] by {
                assert(sides(rules[l]) != pair);
            }
        }
        assert forall|k: int| #[trigger] applies(rules, k, symbols, i) implies pair_rank(
            rules,
            symbols,
            i,
        ) == Some(k as nat) by {
            if crate::text::first_of(left, ' ') < left.len() {
                assert(left.contains(' '));
            }
            sides_of_rule(left, right);
            assert(rules[k] == rule_of(left, right));
            assert(sides(rules[k]) == pair);
            let best: int = ranks(rules)[pair] as int;
            if best > k {
                rules_have_spaces(rules, best);
                rule_from_sides(rules[best]);
                assert(rules[best] == rules[k]);
            } else if best < k {
                assert(sides(rules[k]) != pair);
            }
        }
    }
}

/// No rule merges any neighbours exactly when none of them is the best.
proof fn unmergeable_is_unranked(rules: Seq<Seq<char>>, symbols: Seq<Seq<char>>)
    requires
        !mergeable(rules, symbols),
    ensures
        forall|i: int| (#[trigger] pair_rank(rules, symbols, i)) is None,
{
    if exists|i: int| (#[trigger] pair_rank(rules, symbols, i)) is Some {
        let i: int = choose|i: int| (#[trigger] pair_rank(rules, symbols, i)) is Some;
        best_exists(rules, symbols, i, pair_rank(rules, symbols, i)->Some_0);
    }
}

/// Where some pair has a rank, some pair is the best.
proof fn best_exists(rules: Seq<Seq<char>>, symbols: Seq<Seq<char>>, i: int, rank: nat)
    requires
        pair_rank(rules, symbols, i) == Some(rank),
    ensures
        mergeable(rules, symbols),
    decreases rank, i,
{
    if !is_best(rules, symbols, i) {
        let j: int = choose|j: int|
            (#[trigger] pair_rank(rules, symbols, j)) is Some && !(rank < pair_rank(
                rules,
                symbols,
                j,
            )->Some_0 || (rank == pair_rank(rules, symbols, j)->Some_0 && i <= j));
        best_exists(rules, symbols, j, pair_rank(rules, symbols, j)->Some_0);
    }
}

/// The chain of merges from `symbols` to what is left of them.
proof fn merges_one_by_one(rules: Seq<Seq<char>>, symbols: Seq<Seq<char>>) -> (steps: Seq<
    Seq<Seq<char>>,
>)
    requires
        forall|k: int| 0 <= k < rules.len() ==> (#[trigger] rules[k]).contains(' '),
    ensures
        steps.len() >= 1,
        steps.first() == symbols,
        steps.last() == fully_merged(rules, symbols),
        forall|s: int|
            0 <= s < steps.len() - 1 ==> one_merge(rules, #[trigger] steps[s], steps[s + 1]),
    decreases symbols.len(),
{
    if mergeable(rules, symbols) {
        let at: int = choose|i: int| is_best(rules, symbols, i);
        assert(pair_rank(rules, symbols, at) is Some);
        let after: Seq<Seq<char>> = merged_at(symbols, at);
        let rest: Seq<Seq<Seq<char>>> = merges_one_by_one(rules, after);
        let steps: Seq<Seq<Seq<char>>> = seq![symbols] + rest;
        let k: int = pair_rank(rules, symbols, at)->Some_0 as int;
        ranked_is_applicable(rules, symbols, at);
        assert(applies(rules, k, symbols, at));
        assert(joins_at(symbols, at, after));
        assert forall|l: int, j: int| #[trigger] applies(rules, l, symbols, j) implies k < l || (k
            == l && at <= j) by {
            ranked_is_applicable(rules, symbols, j);
            assert(pair_rank(rules, symbols, j) == Some(l as nat));
        }
        assert(one_merge(rules, symbols, after));
        assert forall|s: int| 0 <= s < steps.len() - 1 implies one_merge(
            rules,
            #[trigger] steps[s],
            steps[s + 1],
        ) by {
            if s > 0 {
                assert(steps[s] == rest[s - 1]);
                assert(steps[s + 1] == rest[s]);
            } else {
                assert(steps[1] == rest[0]);
            }
        }
        assert(steps.last() == rest.last());
        steps
    } else {
        seq![symbols]
    }
}

/// Joining is flattening.
proof fn joined_is_flat(texts: Seq<Seq<char>>)
    ensures
        joined(texts) == texts.flatten(),
    decreases texts.len(),
{
    texts.lemma_flatten_and_flatten_alt_are_equivalent();
    if texts.len() > 0 {
        joined_is_flat(texts.drop_last());
        texts.drop_last().lemma_flatten_and_flatten_alt_are_equivalent();
    }
}

/// A symbol's number is that of the last token that it equals; a symbol that is no token has the
/// number 0.
proof fn number_is_last_token(tokens: Seq<Seq<char>>, symbol: Seq<char>)
    requires
        tokens.len() <= 0x1_0000_0000,
    ensures
        numbers(tokens).contains_key(symbol) <==> tokens.contains(symbol),
        tokens.contains(symbol) ==> {
            let id = numbers(tokens)[symbol] as int;
            &&& id < tokens.len()
            &&& tokens[id] == symbol
            &&& forall|k: int| id < k < tokens.len() ==> tokens[k] != symbol
        },
    decreases tokens.len(),
{
    if tokens.len() > 0 {
        let shorter: Seq<Seq<char>> = tokens.drop_last();
        number_is_last_token(shorter, symbol);
        assert(tokens[tokens.len() - 1] == tokens.last());
        if tokens.contains(symbol) && symbol != tokens.last() {
            let k: int = choose|k: int| 0 <= k < tokens.len() && tokens[k] == symbol;
            assert(shorter[k] == symbol);
        }
        if shorter.contains(symbol) {
            let k: int = choose|k: int| 0 <= k < shorter.len() && shorter[k] == symbol;
            assert(tokens[k] == symbol);
            if symbol != tokens.last() {
                let id: int = numbers(shorter)[symbol] as int;
                assert(tokens[id] == shorter[id]);
                assert forall|k: int| id < k < tokens.len() implies tokens[k] != symbol by {
                    if k < shorter.len() {
                        assert(shorter[k] != symbol);
                    }
                }
            }
        }
    }
}

/// Encoding starts with the characters of the text and merges neighbours until no rule is left
/// that merges any: each time by the first rule that applies anywhere, at the leftmost place. The
/// symbols that are left make up the text. Each is encoded as the number of the last token that it
/// equals, and as 0 if it is no token.
pub proof fn encoding_merges_by_the_rules(t: &GgufTokenizer, text: &str, r: Vec<u32>) -> (steps:
    Seq<Seq<Seq<char>>>)
    requires
        call_ensures(GgufTokenizer::encode, (t, text), r),
        forall|k: int|
            0 <= k < t.model().merges.len() ==> (#[trigger] t.model().merges[k]).contains(' '),
        t.model().tokens.len() <= 0x1_0000_0000,
    ensures
        ({
            let rules = t.model().merges;
            let tokens = t.model().tokens;
            let symbols = steps.last();
            &&& steps.len() >= 1
            &&& steps.first().len() == text@.len()
            &&& forall|i: int|
                0 <= i < text@.len() ==> (#[trigger] steps.first()[i]) == seq![text@[i]]
            &&& forall|s: int|
                0 <= s < steps.len() - 1 ==> one_merge(rules, #[trigger] steps[s], steps[s + 1])
            &&& forall|k: int, i: int| !(#[trigger] applies(rules, k, symbols, i))
            &&& symbols.flatten() == text@
            &&& r@.len() == symbols.len()
            &&& forall|i: int| #![trigger r@[i]]
                0 <= i < symbols.len() ==> if tokens.contains(symbols[i]) {
                    &&& r@[i] < tokens.len()
                    &&& tokens[r@[i] as int] == symbols[i]
                    &&& forall|k: int| r@[i] < k < tokens.len() ==> tokens[k] != symbols[i]
                } else {
                    r@[i] == 0
                }
        }),
{
    let rules: Seq<Seq<char>> = t.model().merges;
    let tokens: Seq<Seq<char>> = t.model().tokens;
    let start: Seq<Seq<char>> = characters(text@);
    let steps: Seq<Seq<Seq<char>>> = merges_one_by_one(rules, start);
    let symbols: Seq<Seq<char>> = fully_merged(rules, start);
    merging_is_complete(rules, start);
    unmergeable_is_unranked(rules, symbols);
    assert forall|k: int, i: int| !(#[trigger] applies(rules, k, symbols, i)) by {
        ranked_is_applicable(rules, symbols, i);
        assert(pair_rank(rules, symbols, i) is None);
    }
    merging_keeps_text(rules, start);
    characters_make_text(text@);
    joined_is_flat(symbols);
    assert forall|i: int| #![trigger r@[i]] 0 <= i < symbols.len() implies if tokens.contains(
        symbols[i],
    ) {
        &&& r@[i] < tokens.len()
        &&& tokens[r@[i] as int] == symbols[i]
        &&& forall|k: int| r@[i] < k < tokens.len() ==> tokens[k] != symbols[i]
    } else {
        r@[i] == 0
    } by {
        number_is_last_token(tokens, symbols[i]);
        assert(r@[i] == number_of(tokens, symbols[i]));
    }
    steps
}

/// Decoding puts the tokens with the given numbers one behind the other, and "<unk>" for a number
/// that no token has.
pub proof fn decoding_joins_the_tokens(t: &GgufTokenizer, ids: &[u32], r: String)
    requires
        call_ensures(GgufTokenizer::decode, (t, ids), r),
    ensures
        r@ == Seq::new(
            ids@.len(),
            |i: int|
                if ids@[i] < t.model().tokens.len() {
                    t.model().tokens[ids@[i] as int]
                } else {
                    "<unk>"@
                },
        ).flatten(),
{
    let tokens: Seq<Seq<char>> = t.model().tokens;
    let texts: Seq<Seq<char>> = ids@.map_values(|id: u32| token_of(tokens, id));
    joined_is_flat(texts);
    assert(texts =~= Seq::new(
        ids@.len(),
        |i: int|
            if ids@[i] < tokens.len() {
                tokens[ids@[i] as int]
            } else {
                "<unk>"@
            },
    ));
}

/// Whether a metadata value is an array of texts, namely of `texts`.
pub open spec fn is_text_array(value: MetaValue, texts: Seq<Seq<char>>) -> bool {
    value matches MetaValue::Array(items) && items.len() == texts.len() && forall|i: int|
        0 <= i < items.len() ==> #[trigger] items[i] == MetaValue::Text(texts[i])
}

/// A tokenizer has the tokens and the rules that the metadata list under these keys, and the two
/// special tokens; a missing list of rules is empty, and missing special tokens are 1 and 2.
pub proof fn tokenizers_have_their_tokens(
    metadata: &GgufMetadata,
    t: GgufTokenizer,
    tokens: Seq<Seq<char>>,
    merges: Seq<Seq<char>>,
)
    requires
        call_ensures(
            GgufTokenizer::from_metadata,
            (metadata,),
            Ok::<GgufTokenizer, TokenizerError>(t),
        ),
        metadata@.contains_key("tokenizer.ggml.tokens"@),
        is_text_array(metadata@["tokenizer.ggml.tokens"@], tokens),
        if metadata@.contains_key("tokenizer.ggml.merges"@) {
            is_text_array(metadata@["tokenizer.ggml.merges"@], merges)
        } else {
            merges.len() == 0
        },
    ensures
        t.model().tokens == tokens,
        t.model().merges == merges,
        metadata@.contains_key("tokenizer.ggml.bos_token_id"@) ==> (
        metadata@["tokenizer.ggml.bos_token_id"@] matches MetaValue::Uint32(v) ==> t.model().bos_id
            == v),
        !(metadata@.contains_key("tokenizer.ggml.bos_token_id"@)
            && metadata@["tokenizer.ggml.bos_token_id"@] is Uint32) ==> t.model().bos_id == 1,
        metadata@.contains_key("tokenizer.ggml.eos_token_id"@) ==> (
        metadata@["tokenizer.ggml.eos_token_id"@] matches MetaValue::Uint32(v) ==> t.model().eos_id
            == v),
        !(metadata@.contains_key("tokenizer.ggml.eos_token_id"@)
            && metadata@["tokenizer.ggml.eos_token_id"@] is Uint32) ==> t.model().eos_id == 2,
{
    let items: Seq<MetaValue> = metadata@["tokenizer.ggml.tokens"@]->Array_0;
    assert forall|i: int| 0 <= i < items.len() implies #[trigger] items[i] is Text by {
        assert(items[i] == MetaValue::Text(tokens[i]));
    }
    assert(t.model().tokens =~= tokens);
    if metadata@.contains_key("tokenizer.ggml.merges"@) {
        let rules: Seq<MetaValue> = metadata@["tokenizer.ggml.merges"@]->Array_0;
        assert forall|i: int| 0 <= i < rules.len() implies #[trigger] rules[i] is Text by {
            assert(rules[i] == MetaValue::Text(merges[i]));
        }
    }
    assert(t.model().merges =~= merges);
}

/// A tokenizer is refused for a rule exactly when one has no space, and then for the first such.
pub proof fn rules_without_space_are_refused(
    metadata: &GgufMetadata,
    tokens: Seq<Seq<char>>,
    merges: Seq<Seq<char>>,
    r: Result<GgufTokenizer, TokenizerError>,
    k: int,
)
    requires
        call_ensures(GgufTokenizer::from_metadata, (metadata,), r),
        metadata@.contains_key("tokenizer.ggml.tokens"@),
        is_text_array(metadata@["tokenizer.ggml.tokens"@], tokens),
        metadata@.contains_key("tokenizer.ggml.merges"@),
        is_text_array(metadata@["tokenizer.ggml.merges"@], merges),
    ensures
        r is Ok <==> forall|i: int| 0 <= i < merges.len() ==> (#[trigger] merges[i]).contains(' '),
        0 <= k < merges.len() && !merges[k].contains(' ') && (forall|i: int|
            0 <= i < k ==> (#[trigger] merges[i]).contains(' ')) ==> (r matches Err(
            TokenizerError::InvalidMerge(rule),
        ) && rule@ == merges[k]),
{
    let items: Seq<MetaValue> = metadata@["tokenizer.ggml.tokens"@]->Array_0;
    assert forall|i: int| 0 <= i < items.len() implies #[trigger] items[i] is Text by {
        assert(items[i] == MetaValue::Text(tokens[i]));
    }
    let rules: Seq<MetaValue> = metadata@["tokenizer.ggml.merges"@]->Array_0;
    assert forall|i: int| 0 <= i < rules.len() implies #[trigger] rules[i] is Text by {
        assert(rules[i] == MetaValue::Text(merges[i]));
    }
    assert(described(metadata@).merges =~= merges);
    bad_rules_have_no_space(merges, k);
}

/// Without a list of tokens, each of them a text, there is no tokenizer.
pub proof fn tokenizers_need_tokens(
    metadata: &GgufMetadata,
    r: Result<GgufTokenizer, TokenizerError>,
)
    requires
        call_ensures(GgufTokenizer::from_metadata, (metadata,), r),
        metadata@.contains_key("tokenizer.ggml.tokens"@) ==> forall|tokens: Seq<Seq<char>>|
            !#[trigger] is_text_array(metadata@["tokenizer.ggml.tokens"@], tokens),
    ensures
        r matches Err(TokenizerError::MissingField(field)) && field@ == "tokenizer.ggml.tokens"@,
{
    if metadata@.contains_key("tokenizer.ggml.tokens"@) {
        let value: MetaValue = metadata@["tokenizer.ggml.tokens"@];
        if let Some(texts) = text_array(value) {
            assert(is_text_array(value, texts));
        }
    }
}

/// A tokenizer tells its special tokens and how many tokens it has.
pub proof fn tokenizers_tell_their_numbers(
    t: &GgufTokenizer,
    bos: u32,
    eos: u32,
    size: usize,
)
    requires
        call_ensures(GgufTokenizer::bos_token_id, (t,), bos),
        call_ensures(GgufTokenizer::eos_token_id, (t,), eos),
        call_ensures(GgufTokenizer::vocab_size, (t,), size),
    ensures
        bos == t.model().bos_id,
        eos == t.model().eos_id,
        size == t.model().tokens.len(),
{
}

proof fn bad_rules_have_no_space(rules: Seq<Seq<char>>, k: int)
    ensures
        bad_rule(rules) is None <==> forall|i: int|
            0 <= i < rules.len() ==> (#[trigger] rules[i]).contains(' '),
        0 <= k < rules.len() && !rules[k].contains(' ') && (forall|i: int|
            0 <= i < k ==> (#[trigger] rules[i]).contains(' ')) ==> bad_rule(rules) == Some(
            rules[k],
        ),
    decreases rules.len(),
{
    if rules.len() > 0 {
        let first: Seq<char> = rules[0];
        first_of_is_first(first, ' ');
        if is_rule(first) {
            assert(first.contains(' '));
            let rest: Seq<Seq<char>> = rules.drop_first();
            bad_rules_have_no_space(rest, k - 1);
            if bad_rule(rest) is None {
                assert forall|i: int| 0 <= i < rules.len() implies (#[trigger] rules[i]).contains(
                    ' ',
                ) by {
                    if i > 0 {
                        assert(rest[i - 1].contains(' '));
                    }
                }
            } else if forall|i: int|
                0 <= i < rules.len() ==> (#[trigger] rules[i]).contains(' ') {
                assert forall|i: int| 0 <= i < rest.len() implies (#[trigger] rest[i]).contains(
                    ' ',
                ) by {
                    assert(rules[i + 1].contains(' '));
                }
            }
            if 0 <= k < rules.len() && !rules[k].contains(' ') && (forall|i: int|
                0 <= i < k ==> (#[trigger] rules[i]).contains(' ')) {
                assert(k > 0);
                assert(rest[k - 1] == rules[k]);
                assert forall|i: int| 0 <= i < k - 1 implies (#[trigger] rest[i]).contains(' ') by {
                    assert(rules[i + 1].contains(' '));
                }
            }
        } else {
            assert(!first.contains(' '));
            if 0 < k < rules.len() {
                assert(!rules[0].contains(' '));
            }
        }
    }
}

} // verus!
