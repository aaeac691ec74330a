//! Lorem Ipsum placeholder text.

use vstd::prelude::*;

use crate::text::chars;
use crate::text::search;
use crate::text::search::join_texts;

verus! {

/// How many words there are to pick from.
pub const WORD_COUNT: usize = 34;

/// One of the words, counted around.
pub open spec fn word_at(index: nat) -> Seq<char> {
    let place = (index % 34) as u8;
    match place {
        0u8 => "lorem"@,
        1u8 => "ipsum"@,
        2u8 => "dolor"@,
        3u8 => "sit"@,
        4u8 => "amet"@,
        5u8 => "consectetur"@,
        6u8 => "adipiscing"@,
        7u8 => "elit"@,
        8u8 => "sed"@,
        9u8 => "do"@,
        10u8 => "eiusmod"@,
        11u8 => "tempor"@,
        12u8 => "incididunt"@,
        13u8 => "ut"@,
        14u8 => "labore"@,
        15u8 => "et"@,
        16u8 => "dolore"@,
        17u8 => "magna"@,
        18u8 => "aliqua"@,
        19u8 => "enim"@,
        20u8 => "ad"@,
        21u8 => "minim"@,
        22u8 => "veniam"@,
        23u8 => "quis"@,
        24u8 => "nostrud"@,
        25u8 => "exercitation"@,
        26u8 => "ullamco"@,
        27u8 => "laboris"@,
        28u8 => "nisi"@,
        29u8 => "aliquip"@,
        30u8 => "ex"@,
        31u8 => "ea"@,
        32u8 => "commodo"@,
        _ => "consequat"@,
    }
}

/// One of the words, counted around.
pub fn word(index: usize) -> (word: &'static str)
    ensures
        word@ == word_at(index as nat),
{
    match (index % WORD_COUNT) as u8 {
        0 => "lorem",
        1 => "ipsum",
        2 => "dolor",
        3 => "sit",
        4 => "amet",
        5 => "consectetur",
        6 => "adipiscing",
        7 => "elit",
        8 => "sed",
        9 => "do",
        10 => "eiusmod",
        11 => "tempor",
        12 => "incididunt",
        13 => "ut",
        14 => "labore",
        15 => "et",
        16 => "dolore",
        17 => "magna",
        18 => "aliqua",
        19 => "enim",
        20 => "ad",
        21 => "minim",
        22 => "veniam",
        23 => "quis",
        24 => "nostrud",
        25 => "exercitation",
        26 => "ullamco",
        27 => "laboris",
        28 => "nisi",
        29 => "aliquip",
        30 => "ex",
        31 => "ea",
        32 => "commodo",
        _ => "consequat",
    }
}

/// Words from a place on.
pub open spec fn words_from(seed: nat, count: nat) -> Seq<Seq<char>> {
    Seq::new(count, |i: int| word_at((seed + i) as nat))
}

/// Deterministically picks `count` words from the fixed pool, cycling
/// through it starting at `seed`. Deterministic on purpose: assertions in
/// tests must not flake.
pub fn generate(seed: usize, count: usize) -> (text: String)
    requires
        count == 0 || seed + count - 1 <= usize::MAX,
    ensures
        text@ == search::join(words_from(seed as nat, count as nat), " "@),
{
    let mut picked: Vec<String> = Vec::new();
    let mut i: usize = 0;
    while i < count
        invariant
            count == 0 || seed + count - 1 <= usize::MAX,
            i <= count,
            picked@.len() == i,
            forall|k: int| 0 <= k < i ==> (#[trigger] picked@[k])@ == word_at((seed + k) as nat),
        decreases count - i,
    {
        picked.push(word(seed + i).to_owned());
        i = i + 1;
    }
    assert(chars::texts(picked@) =~= words_from(seed as nat, count as nat));
    join_texts(&picked, " ")
}

proof fn lemma_words_are_unbroken(index: nat)
    ensures
        word_at(index).len() > 0,
        !word_at(index).contains(' '),
{
    reveal_strlit("lorem");
    reveal_strlit("ipsum");
    reveal_strlit("dolor");
    reveal_strlit("sit");
    reveal_strlit("amet");
    reveal_strlit("consectetur");
    reveal_strlit("adipiscing");
    reveal_strlit("elit");
    reveal_strlit("sed");
    reveal_strlit("do");
    reveal_strlit("eiusmod");
    reveal_strlit("tempor");
    reveal_strlit("incididunt");
    reveal_strlit("ut");
    reveal_strlit("labore");
    reveal_strlit("et");
    reveal_strlit("dolore");
    reveal_strlit("magna");
    reveal_strlit("aliqua");
    reveal_strlit("enim");
    reveal_strlit("ad");
    reveal_strlit("minim");
    reveal_strlit("veniam");
    reveal_strlit("quis");
    reveal_strlit("nostrud");
    reveal_strlit("exercitation");
    reveal_strlit("ullamco");
    reveal_strlit("laboris");
    reveal_strlit("nisi");
    reveal_strlit("aliquip");
    reveal_strlit("ex");
    reveal_strlit("ea");
    reveal_strlit("commodo");
    reveal_strlit("consequat");
}

/// The text has as many words as were asked for, one space between each two.
pub proof fn text_has_the_words(seed: nat, count: nat)
    requires
        count > 0,
    ensures
        search::split_on(search::join(words_from(seed, count), " "@), " "@) == words_from(
            seed,
            count,
        ),
{
    assert forall|i: int| 0 <= i < count implies !(#[trigger] words_from(seed, count)[i]).contains(
        ' ',
    ) by {
        lemma_words_are_unbroken((seed + i) as nat);
    }
    search::split_undoes_join(words_from(seed, count));
}

/// The words come around after all of them have.
pub proof fn words_come_around(seed: nat, count: nat)
    ensures
        words_from(seed + 34, count) == words_from(seed, count),
{
    assert forall|i: int| 0 <= i < count implies words_from(seed + 34, count)[i] == words_from(
        seed,
        count,
    )[i] by {
        assert((seed + 34 + i) % 34 == (seed + i) % 34);
    }
    assert(words_from(seed + 34, count) =~= words_from(seed, count));
}

} // verus!
