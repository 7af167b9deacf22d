//! Words made up from syllable patterns.
//!
//! A pattern is a list of alternatives, separated by commas. Every
//! character of an alternative names a category of letters and stands for
//! one letter of it, but for three: what is between `(` and `)` may be left
//! out, and `!` repeats the last character of the word so far.

use crate::text::{find_from, first_of, pieces};
use rand::rngs::ThreadRng;
use rand::Rng;
use vstd::prelude::*;
use vstd::string::*;

verus! {

/// A category of letters: the character that names it in patterns, and
/// the letters it stands for.
pub struct LetterCategory {
    pub name: char,
    pub letters: Vec<String>,
}

/// What is wrong with the definition of a category.
#[derive(Clone, Copy, Debug, PartialEq, Eq, Structural)]
pub enum CategoryFault {
    /// It has no colon.
    Malformed,
    /// The name before the colon is not one single-byte character.
    NameLength,
}

/// Why no words were generated.
#[derive(Clone, Copy, Debug, PartialEq, Eq, Structural)]
pub enum WordgenError {
    /// The category with this number, counted from one, has a name that is
    /// not one single-byte character.
    NameLength(usize),
    /// The category with this number, counted from one, has no colon.
    Malformed(usize),
    /// The pattern uses this character, which names no category.
    Undefined(char),
}

/// The texts of a list of strings.
pub open spec fn texts(strings: Seq<String>) -> Seq<Seq<char>> {
    Seq::new(strings.len(), |i: int| strings[i]@)
}

/// Whether `c` has a meaning of its own in patterns.
pub open spec fn is_control(c: char) -> bool {
    c == ',' || c == '(' || c == ')' || c == '!'
}

/// What a definition `name:letter,letter,..` defines: the name and the
/// letters, or what is wrong with it.
pub open spec fn spec_category(definition: Seq<char>) -> Result<(char, Seq<Seq<char>>), CategoryFault> {
    let colon = first_of(definition, ':');
    if colon >= definition.len() {
        Err(CategoryFault::Malformed)
    } else if colon != 1 || definition[0] as u32 >= 0x80 {
        Err(CategoryFault::NameLength)
    } else {
        Ok((definition[0], pieces(definition.skip(2), ',')))
    }
}

/// The place of the definition that counts for `name`: the last one.
pub open spec fn defined_at(categories: Seq<LetterCategory>, name: char) -> Option<int>
    decreases categories.len(),
{
    if categories.len() == 0 {
        None
    } else if categories.last().name == name {
        Some(categories.len() - 1)
    } else {
        defined_at(categories.drop_last(), name)
    }
}

/// Whether every category has a letter to choose.
pub open spec fn usable(categories: Seq<LetterCategory>) -> bool {
    forall|i: int| 0 <= i < categories.len() ==> (#[trigger] categories[i]).letters@.len() > 0
}

/// Whether the character at `index` of a pattern names no category.
pub open spec fn undefined_at(pattern: Seq<char>, categories: Seq<LetterCategory>, index: int) -> bool {
    !is_control(pattern[index]) && defined_at(categories, pattern[index]) is None
}

/// Whether `c` occurs in a letter of some category.
pub open spec fn from_letters(categories: Seq<LetterCategory>, c: char) -> bool {
    exists|i: int, j: int, k: int|
        0 <= i < categories.len() && 0 <= j < categories[i].letters@.len() && 0 <= k
            < categories[i].letters@[j]@.len() && #[trigger] categories[i].letters@[j]@[k] == c
}

/// Whether a word consists of characters of the categories' letters.
pub open spec fn made_of_letters(categories: Seq<LetterCategory>, word: Seq<char>) -> bool {
    forall|k: int| 0 <= k < word.len() ==> from_letters(categories, #[trigger] word[k])
}

proof fn lemma_defined_at(categories: Seq<LetterCategory>, name: char)
    ensures
        defined_at(categories, name) is Some ==> 0 <= defined_at(categories, name)->0
            < categories.len() && categories[defined_at(categories, name)->0].name == name,
    decreases categories.len(),
{
    if categories.len() > 0 && categories.last().name != name {
        lemma_defined_at(categories.drop_last(), name);
    }
}

/// The texts between the marks of `text`, from its character `from` on.
pub fn split_pieces(text: &str, from: usize, mark: char) -> (parts: Vec<String>)
    requires
        from <= text@.len(),
    ensures
        texts(parts@) == pieces(text@.skip(from as int), mark),
        parts@.len() > 0,
{
    let n = text.unicode_len();
    let mut parts: Vec<String> = Vec::new();
    let mut pos: usize = from;
    assert(texts(parts@) =~= Seq::<Seq<char>>::empty());
    loop
        invariant
            from <= pos <= n,
            n == text@.len(),
            pieces(text@.skip(from as int), mark) == texts(parts@) + pieces(
                text@.skip(pos as int),
                mark,
            ),
        decreases n - pos,
    {
        let ghost rest = text@.skip(pos as int);
        let ghost done = texts(parts@);
        let end = find_from(text, pos, mark);
        let part = text.substring_char(pos, end).to_owned();
        assert(part@ =~= rest.take(end - pos));
        parts.push(part);
        assert(texts(parts@) =~= done.push(rest.take(end - pos)));
        if end >= n {
            assert(rest.take(end - pos) =~= rest);
            assert(done.push(rest) =~= done + seq![rest]);
            return parts;
        }
        proof {
            assert(rest.skip(end - pos + 1) =~= text@.skip(end + 1));
            assert(done + (seq![rest.take(end - pos)] + pieces(text@.skip(end + 1), mark))
                =~= done.push(rest.take(end - pos)) + pieces(text@.skip(end + 1), mark));
        }
        pos = end + 1;
    }
}

/// Reads the definition of a category.
pub fn read_category(definition: &str) -> (category: Result<LetterCategory, CategoryFault>)
    ensures
        match spec_category(definition@) {
            Ok((name, letters)) => category is Ok && category->Ok_0.name == name && texts(
                category->Ok_0.letters@,
            ) == letters && letters.len() > 0,
            Err(fault) => category == Err::<LetterCategory, CategoryFault>(fault),
        },
{
    let n = definition.unicode_len();
    assert(definition@.skip(0) =~= definition@);
    let colon = find_from(definition, 0, ':');
    if colon >= n {
        return Err(CategoryFault::Malformed);
    }
    if colon != 1 {
        return Err(CategoryFault::NameLength);
    }
    let name = definition.get_char(0);
    if name as u32 >= 0x80 {
        return Err(CategoryFault::NameLength);
    }
    let letters = split_pieces(definition, 2, ',');
    Ok(LetterCategory { name, letters })
}

/// The place of the definition that counts for `name`, if it is defined.
pub fn find_definition(categories: &Vec<LetterCategory>, name: char) -> (at: Option<usize>)
    ensures
        match defined_at(categories@, name) {
            Some(index) => at == Some(index as usize) && 0 <= index < categories@.len()
                && categories@[index].name == name,
            None => at is None,
        },
        at is Some ==> defined_at(categories@, name) is Some && defined_at(categories@, name)->0
            == at->0,
{
    let mut i: usize = categories.len();
    assert(categories@.take(i as int) =~= categories@);
    proof {
        lemma_defined_at(categories@, name);
    }
    while i > 0
        invariant
            i <= categories.len(),
            defined_at(categories@, name) == defined_at(categories@.take(i as int), name),
        decreases i,
    {
        i -= 1;
        assert(categories@.take(i + 1).drop_last() =~= categories@.take(i as int));
        if categories[i].name == name {
            return Some(i);
        }
    }
    None
}

/// Checks that every character of a pattern that has no meaning of its
/// own names a category; reports the first that does not.
pub fn check_pattern(pattern: &str, categories: &Vec<LetterCategory>) -> (checked: Result<(), char>)
    ensures
        match checked {
            Ok(_) => forall|i: int|
                0 <= i < pattern@.len() ==> !undefined_at(pattern@, categories@, i),
            Err(c) => exists|i: int|
                0 <= i < pattern@.len() && #[trigger] undefined_at(pattern@, categories@, i)
                    && pattern@[i] == c && forall|j: int|
                    0 <= j < i ==> !undefined_at(pattern@, categories@, j),
        },
{
    let n = pattern.unicode_len();
    let mut i: usize = 0;
    while i < n
        invariant
            i <= n,
            n == pattern@.len(),
            forall|j: int| 0 <= j < i ==> !undefined_at(pattern@, categories@, j),
        decreases n - i,
    {
        let c = pattern.get_char(i);
        if !(c == ',' || c == '(' || c == ')' || c == '!') {
            if find_definition(categories, c).is_none() {
                assert(undefined_at(pattern@, categories@, i as int));
                return Err(c);
            }
        }
        i += 1;
    }
    Ok(())
}

/// rand's handle to the thread's random number generator.
#[verifier::external_type_specification]
#[verifier::external_body]
pub struct ExThreadRng(rand::rngs::ThreadRng);

/// Trusted: rand's `Rng::gen_range` on an inclusive range of `usize`. It
/// panics on an empty range, which `low <= high` rules out, and returns a
/// value of the range; which one is left open.
#[verifier::external_body]
fn draw_between(rng: &mut ThreadRng, low: usize, high: usize) -> (drawn: usize)
    requires
        low <= high,
    ensures
        low <= drawn <= high,
{
    rng.gen_range(low..=high)
}

/// Trusted: rand's `Rng::gen` for a `bool`. Nothing is claimed of the
/// result.
#[verifier::external_body]
fn draw_coin(rng: &mut ThreadRng) -> (coin: bool) {
    rng.gen()
}

/// Trusted: std's `String::push`, which appends one character.
#[verifier::external_body]
fn push_char(text: &mut String, c: char)
    ensures
        final(text)@ == old(text)@.push(c),
{
    text.push(c)
}

/// How deep inside left-out groups a pattern is after the character `c`,
/// if it was `skipping` deep before it. `coin` decides whether a group
/// that opens outside any left-out group is left out.
pub open spec fn depth_after(skipping: nat, c: char, coin: bool) -> nat {
    if c == '(' {
        if skipping > 0 || coin {
            skipping + 1
        } else {
            skipping
        }
    } else if c == ')' {
        if skipping > 0 {
            (skipping - 1) as nat
        } else {
            0
        }
    } else {
        skipping
    }
}

/// The word after the character `c` of a pattern, if it was `word` before
/// it: inside a left-out group, and after a bracket, the same; after `!`
/// with its last character repeated; else with `letter`, the letter chosen
/// from the category that `c` names, appended.
pub open spec fn word_after(word: Seq<char>, skipping: nat, c: char, letter: Seq<char>) -> Seq<
    char,
> {
    if c == '(' || c == ')' || skipping > 0 {
        word
    } else if c == '!' {
        if word.len() > 0 {
            word.push(word.last())
        } else {
            word
        }
    } else {
        word + letter
    }
}

/// Takes one character of a pattern into account: see `depth_after` and
/// `word_after`.
pub fn apply_char(word: &mut String, skipping: usize, c: char, coin: bool, letter: &str) -> (depth:
    usize)
    requires
        skipping < usize::MAX,
    ensures
        depth == depth_after(skipping as nat, c, coin),
        final(word)@ == word_after(old(word)@, skipping as nat, c, letter@),
{
    if c == '(' {
        if skipping > 0 || coin {
            skipping + 1
        } else {
            skipping
        }
    } else if c == ')' {
        if skipping > 0 {
            skipping - 1
        } else {
            0
        }
    } else if skipping > 0 {
        skipping
    } else if c == '!' {
        let n = word.as_str().unicode_len();
        if n > 0 {
            let last = word.as_str().get_char(n - 1);
            push_char(word, last);
        }
        0
    } else {
        word.append(letter);
        0
    }
}

proof fn lemma_piece_chars(text: Seq<char>, mark: char, part: int, k: int)
    requires
        0 <= part < pieces(text, mark).len(),
        0 <= k < pieces(text, mark)[part].len(),
    ensures
        pieces(text, mark)[part][k] != mark,
        exists|at: int| 0 <= at < text.len() && text[at] == pieces(text, mark)[part][k],
    decreases text.len(),
{
    let end = first_of(text, mark);
    crate::text::lemma_first_of(text, mark, 0);
    lemma_no_mark_before(text, mark, k);
    if end >= text.len() {
        assert(pieces(text, mark)[part] == text);
        assert(text[k] == pieces(text, mark)[part][k]);
    } else if part == 0 {
        assert(pieces(text, mark)[0] == text.take(end as int));
        assert(text[k] == pieces(text, mark)[part][k]);
    } else {
        let rest = text.skip(end as int + 1);
        assert(pieces(text, mark)[part] == pieces(rest, mark)[part - 1]);
        lemma_piece_chars(rest, mark, part - 1, k);
        let at = choose|at: int| 0 <= at < rest.len() && rest[at] == pieces(rest, mark)[part - 1][k];
        assert(text[at + end + 1] == rest[at]);
    }
}

proof fn lemma_no_mark_before(text: Seq<char>, mark: char, k: int)
    ensures
        0 <= k < first_of(text, mark) ==> k < text.len() && text[k] != mark,
    decreases text.len(),
{
    if text.len() > 0 && text[0] != mark && k > 0 {
        lemma_no_mark_before(text.drop_first(), mark, k - 1);
    }
}

/// The letter that the pick `pick` takes from the category that `c`
/// names; no letter where `c` names none.
pub open spec fn letter_picked(categories: Seq<LetterCategory>, c: char, pick: int) -> Seq<char> {
    match defined_at(categories, c) {
        Some(index) => categories[index].letters@[pick]@,
        None => Seq::empty(),
    }
}

/// The word and the depth inside left-out groups after the first `upto`
/// characters of a syllable's pattern, for a word that was `word` before
/// it: character by character as `word_after` and `depth_after` say, with
/// `coins[k]` deciding on a group that the character at `k` opens and
/// `picks[k]` choosing the letter for it.
pub open spec fn syllable_after(
    word: Seq<char>,
    syllable: Seq<char>,
    categories: Seq<LetterCategory>,
    coins: Seq<bool>,
    picks: Seq<int>,
    upto: int,
) -> (Seq<char>, nat)
    decreases upto,
{
    if upto <= 0 {
        (word, 0)
    } else {
        let before = syllable_after(word, syllable, categories, coins, picks, upto - 1);
        let c = syllable[upto - 1];
        (
            word_after(before.0, before.1, c, letter_picked(categories, c, picks[upto - 1])),
            depth_after(before.1, c, coins[upto - 1]),
        )
    }
}

/// Whether the pick for the character at `k` of a syllable's pattern is
/// the place of a letter in the category that the character names.
pub open spec fn pick_fits(
    syllable: Seq<char>,
    categories: Seq<LetterCategory>,
    picks: Seq<int>,
    k: int,
) -> bool {
    match defined_at(categories, syllable[k]) {
        Some(index) => 0 <= picks[k] < categories[index].letters@.len(),
        None => true,
    }
}

/// Whether `made` is the word that `word` becomes by the syllable with the
/// pattern `syllable` under the draws `coins` and `picks`, one of each for
/// every character of the pattern.
pub open spec fn makes_syllable(
    word: Seq<char>,
    syllable: Seq<char>,
    categories: Seq<LetterCategory>,
    coins: Seq<bool>,
    picks: Seq<int>,
    made: Seq<char>,
) -> bool {
    &&& coins.len() == syllable.len()
    &&& picks.len() == syllable.len()
    &&& forall|k: int| 0 <= k < syllable.len() ==> #[trigger] pick_fits(syllable, categories, picks, k)
    &&& made == syllable_after(word, syllable, categories, coins, picks, syllable.len() as int).0
}

/// Whether the draws for one syllable fit the pattern: the alternative is
/// one of the pattern's, and there is a coin and a fitting pick for each
/// of its characters.
pub open spec fn draw_fits(
    pattern: Seq<char>,
    categories: Seq<LetterCategory>,
    draw: (int, Seq<bool>, Seq<int>),
) -> bool {
    &&& 0 <= draw.0 < pieces(pattern, ',').len()
    &&& draw.1.len() == pieces(pattern, ',')[draw.0].len()
    &&& draw.2.len() == pieces(pattern, ',')[draw.0].len()
    &&& forall|k: int|
        0 <= k < pieces(pattern, ',')[draw.0].len() ==> #[trigger] pick_fits(
            pieces(pattern, ',')[draw.0],
            categories,
            draw.2,
            k,
        )
}

/// The word after the first `upto` syllables, each made after the
/// alternative and with the coins and picks that `draws` holds for it.
pub open spec fn word_of(
    pattern: Seq<char>,
    categories: Seq<LetterCategory>,
    draws: Seq<(int, Seq<bool>, Seq<int>)>,
    upto: int,
) -> Seq<char>
    decreases upto,
{
    if upto <= 0 {
        Seq::empty()
    } else {
        let before = word_of(pattern, categories, draws, upto - 1);
        let draw = draws[upto - 1];
        let syllable = pieces(pattern, ',')[draw.0];
        syllable_after(before, syllable, categories, draw.1, draw.2, syllable.len() as int).0
    }
}

/// Whether `word` is what `pattern` gives under `draws`: one draw for
/// every syllable, each fitting the pattern.
pub open spec fn expands(
    pattern: Seq<char>,
    categories: Seq<LetterCategory>,
    draws: Seq<(int, Seq<bool>, Seq<int>)>,
    word: Seq<char>,
) -> bool {
    &&& forall|s: int| 0 <= s < draws.len() ==> draw_fits(pattern, categories, #[trigger] draws[s])
    &&& word == word_of(pattern, categories, draws, draws.len() as int)
}

proof fn lemma_syllable_reads_prefix(
    word: Seq<char>,
    syllable: Seq<char>,
    categories: Seq<LetterCategory>,
    coins: Seq<bool>,
    picks: Seq<int>,
    other_coins: Seq<bool>,
    other_picks: Seq<int>,
    upto: int,
)
    requires
        forall|k: int| 0 <= k < upto ==> coins[k] == other_coins[k] && picks[k] == other_picks[k],
    ensures
        syllable_after(word, syllable, categories, coins, picks, upto) == syllable_after(
            word,
            syllable,
            categories,
            other_coins,
            other_picks,
            upto,
        ),
    decreases upto,
{
    if upto > 0 {
        lemma_syllable_reads_prefix(
            word,
            syllable,
            categories,
            coins,
            picks,
            other_coins,
            other_picks,
            upto - 1,
        );
    }
}

proof fn lemma_word_reads_prefix(
    pattern: Seq<char>,
    categories: Seq<LetterCategory>,
    draws: Seq<(int, Seq<bool>, Seq<int>)>,
    others: Seq<(int, Seq<bool>, Seq<int>)>,
    upto: int,
)
    requires
        forall|s: int| 0 <= s < upto ==> draws[s] == others[s],
    ensures
        word_of(pattern, categories, draws, upto) == word_of(pattern, categories, others, upto),
    decreases upto,
{
    if upto > 0 {
        lemma_word_reads_prefix(pattern, categories, draws, others, upto - 1);
    }
}

/// Makes one syllable after the pattern `syllable` and appends it to
/// `word`: a coin is drawn for every group that opens outside a left-out
/// group, a letter for every character that names a category outside one.
fn make_syllable(
    rng: &mut ThreadRng,
    word: &mut String,
    syllable: &str,
    categories: &Vec<LetterCategory>,
)
    requires
        usable(categories@),
        forall|k: int|
            0 <= k < syllable@.len() ==> syllable@[k] != ',' && !undefined_at(
                syllable@,
                categories@,
                k,
            ),
        made_of_letters(categories@, old(word)@),
    ensures
        made_of_letters(categories@, final(word)@),
        exists|coins: Seq<bool>, picks: Seq<int>| #[trigger]
            makes_syllable(old(word)@, syllable@, categories@, coins, picks, final(word)@),
{
    let ghost start = word@;
    let ghost mut coins: Seq<bool> = Seq::empty();
    let ghost mut picks: Seq<int> = Seq::empty();
    let n = syllable.unicode_len();
    let mut skipping: usize = 0;
    let mut k: usize = 0;
    while k < n
        invariant
            k <= n,
            n == syllable@.len(),
            skipping <= k,
            usable(categories@),
            forall|j: int|
                0 <= j < syllable@.len() ==> syllable@[j] != ',' && !undefined_at(
                    syllable@,
                    categories@,
                    j,
                ),
            made_of_letters(categories@, word@),
            coins.len() == k,
            picks.len() == k,
            forall|j: int| 0 <= j < k ==> #[trigger] pick_fits(syllable@, categories@, picks, j),
            syllable_after(start, syllable@, categories@, coins, picks, k as int) == (
                word@,
                skipping as nat,
            ),
        decreases n - k,
    {
        let c = syllable.get_char(k);
        let is_control = c == ',' || c == '(' || c == ')' || c == '!';
        let coin = if c == '(' && skipping == 0 {
            draw_coin(rng)
        } else {
            false
        };
        let ghost before = word@;
        let ghost depth = skipping as nat;
        let ghost earlier_coins = coins;
        let ghost earlier_picks = picks;
        let ghost mut picked: int = 0;
        assert(!undefined_at(syllable@, categories@, k as int));
        proof {
            lemma_defined_at(categories@, c);
        }
        if !is_control && skipping == 0 {
            match find_definition(categories, c) {
                Some(index) => {
                    let letters = &categories[index].letters;
                    assert(categories@[index as int].letters@.len() > 0);
                    let pick = draw_between(rng, 0, letters.len() - 1);
                    let letter = letters[pick].as_str();
                    skipping = apply_char(word, skipping, c, coin, letter);
                    proof {
                        picked = pick as int;
                        assert(defined_at(categories@, c)->0 == index as int);
                        assert(letter@ == categories@[index as int].letters@[picked]@);
                        assert(letter@ == letter_picked(categories@, c, picked));
                        assert(0 <= picked < categories@[index as int].letters@.len());
                        assert forall|q: int| 0 <= q < word@.len() implies from_letters(
                            categories@,
                            #[trigger] word@[q],
                        ) by {
                            if q < before.len() {
                                assert(word@[q] == before[q]);
                            } else {
                                assert(categories@[index as int].letters@[pick as int]@[q
                                    - before.len()] == word@[q]);
                            }
                        }
                    }
                },
                None => {
                    proof {
                        assert(false);
                    }
                },
            }
        } else {
            skipping = apply_char(word, skipping, c, coin, "");
            proof {
                assert(c != ',');
                assert(word@ == word_after(before, depth, c, ""@));
                assert(word@ == word_after(before, depth, c, letter_picked(categories@, c, 0)));
                if defined_at(categories@, c) is Some {
                    assert(categories@[defined_at(categories@, c)->0].letters@.len() > 0);
                }
                assert forall|q: int| 0 <= q < word@.len() implies from_letters(
                    categories@,
                    #[trigger] word@[q],
                ) by {
                    if q < before.len() {
                        assert(word@[q] == before[q]);
                    } else {
                        assert(c == '!' && before.len() > 0);
                        assert(word@[q] == before[before.len() - 1]);
                    }
                }
            }
        }
        proof {
            coins = earlier_coins.push(coin);
            picks = earlier_picks.push(picked);
            lemma_syllable_reads_prefix(
                start,
                syllable@,
                categories@,
                coins,
                picks,
                earlier_coins,
                earlier_picks,
                k as int,
            );
            assert forall|j: int| 0 <= j < k + 1 implies #[trigger] pick_fits(
                syllable@,
                categories@,
                picks,
                j,
            ) by {
                if j < k {
                    assert(pick_fits(syllable@, categories@, earlier_picks, j));
                    assert(picks[j] == earlier_picks[j]);
                } else {
                    assert(picks[j] == picked);
                    assert(syllable@[j] == c);
                }
            }
        }
        k += 1;
    }
    assert(makes_syllable(start, syllable@, categories@, coins, picks, word@));
}

/// Generates one word: a number of syllables drawn between `min_syllables`
/// and `max_syllables`, each made after an alternative of `pattern` drawn
/// afresh, with a coin drawn for every group that may be left out and a
/// letter drawn for every character that names a category. Whatever is
/// drawn, the word is what the pattern gives under these draws, and so
/// consists of characters of the categories' letters.
pub fn generate_word(
    rng: &mut ThreadRng,
    min_syllables: usize,
    max_syllables: usize,
    pattern: &str,
    categories: &Vec<LetterCategory>,
) -> (word: String)
    requires
        min_syllables <= max_syllables,
        usable(categories@),
        forall|i: int| 0 <= i < pattern@.len() ==> !undefined_at(pattern@, categories@, i),
    ensures
        made_of_letters(categories@, word@),
        exists|draws: Seq<(int, Seq<bool>, Seq<int>)>|
            min_syllables <= draws.len() <= max_syllables && #[trigger] expands(
                pattern@,
                categories@,
                draws,
                word@,
            ),
{
    let mut word = String::new();
    let ghost mut draws: Seq<(int, Seq<bool>, Seq<int>)> = Seq::empty();
    let syllable_count = draw_between(rng, min_syllables, max_syllables);
    assert(pattern@.skip(0) =~= pattern@);
    let alternatives = split_pieces(pattern, 0, ',');
    let mut made: usize = 0;
    while made < syllable_count
        invariant
            made <= syllable_count,
            usable(categories@),
            forall|i: int| 0 <= i < pattern@.len() ==> !undefined_at(pattern@, categories@, i),
            texts(alternatives@) == pieces(pattern@, ','),
            alternatives@.len() > 0,
            made_of_letters(categories@, word@),
            draws.len() == made,
            expands(pattern@, categories@, draws, word@),
        decreases syllable_count - made,
    {
        let chosen = draw_between(rng, 0, alternatives.len() - 1);
        let syllable = alternatives[chosen].as_str();
        let ghost before = word@;
        let ghost earlier = draws;
        proof {
            assert(texts(alternatives@)[chosen as int] == alternatives@[chosen as int]@);
            assert(syllable@ == pieces(pattern@, ',')[chosen as int]);
            assert forall|k: int| 0 <= k < syllable@.len() implies syllable@[k] != ','
                && !undefined_at(syllable@, categories@, k) by {
                lemma_piece_chars(pattern@, ',', chosen as int, k);
                let at = choose|at: int| 0 <= at < pattern@.len() && pattern@[at] == syllable@[k];
                assert(!undefined_at(pattern@, categories@, at));
            }
        }
        make_syllable(rng, &mut word, syllable, categories);
        proof {
            let (coins, picks) = choose|coins: Seq<bool>, picks: Seq<int>| #[trigger]
                makes_syllable(before, syllable@, categories@, coins, picks, word@);
            let draw = (chosen as int, coins, picks);
            draws = earlier.push(draw);
            assert(draw_fits(pattern@, categories@, draw));
            assert forall|s: int| 0 <= s < draws.len() implies draw_fits(
                pattern@,
                categories@,
                #[trigger] draws[s],
            ) by {
                if s < earlier.len() {
                    assert(draws[s] == earlier[s]);
                }
            }
            lemma_word_reads_prefix(pattern@, categories@, draws, earlier, made as int);
            assert(draws[made as int] == draw);
        }
        made += 1;
    }
    word
}

/// The error for a fault in the definition at `index`.
pub open spec fn fault_at(index: int, fault: CategoryFault) -> WordgenError {
    match fault {
        CategoryFault::Malformed => WordgenError::Malformed((index + 1) as usize),
        CategoryFault::NameLength => WordgenError::NameLength((index + 1) as usize),
    }
}

/// Whether `categories` are what `definitions` define, one by one.
pub open spec fn defined_by(categories: Seq<LetterCategory>, definitions: Seq<String>) -> bool {
    &&& categories.len() == definitions.len()
    &&& forall|i: int|
        0 <= i < definitions.len() ==> spec_category(#[trigger] definitions[i]@) == Ok::<
            (char, Seq<Seq<char>>),
            CategoryFault,
        >((categories[i].name, texts(categories[i].letters@)))
}

/// Whether the definition at `index` is the first with a fault.
pub open spec fn first_fault(definitions: Seq<String>, index: int) -> bool {
    &&& 0 <= index < definitions.len()
    &&& spec_category(definitions[index]@) is Err
    &&& forall|j: int| 0 <= j < index ==> spec_category(#[trigger] definitions[j]@) is Ok
}

/// Reads the definitions of the categories, stopping at the first with a
/// fault.
pub fn read_categories(definitions: &Vec<String>) -> (read: Result<Vec<LetterCategory>, WordgenError>)
    ensures
        match read {
            Ok(categories) => defined_by(categories@, definitions@) && usable(categories@),
            Err(error) => exists|i: int| #[trigger]
                first_fault(definitions@, i) && error == fault_at(
                    i,
                    spec_category(definitions@[i]@)->Err_0,
                ),
        },
{
    let mut categories: Vec<LetterCategory> = Vec::new();
    let mut i: usize = 0;
    while i < definitions.len()
        invariant
            i <= definitions.len(),
            categories@.len() == i,
            usable(categories@),
            forall|j: int|
                0 <= j < i ==> spec_category(#[trigger] definitions@[j]@) == Ok::<
                    (char, Seq<Seq<char>>),
                    CategoryFault,
                >((categories@[j].name, texts(categories@[j].letters@))),
        decreases definitions.len() - i,
    {
        match read_category(definitions[i].as_str()) {
            Ok(category) => {
                categories.push(category);
            },
            Err(CategoryFault::Malformed) => {
                assert(first_fault(definitions@, i as int));
                return Err(WordgenError::Malformed(i + 1));
            },
            Err(CategoryFault::NameLength) => {
                assert(first_fault(definitions@, i as int));
                return Err(WordgenError::NameLength(i + 1));
            },
        }
        i += 1;
    }
    Ok(categories)
}

/// Whether `words` holds `word`.
fn holds_word(words: &Vec<String>, word: &String) -> (held: bool)
    ensures
        held == exists|i: int| 0 <= i < words@.len() && #[trigger] words@[i]@ == word@,
{
    let mut i: usize = 0;
    while i < words.len()
        invariant
            i <= words.len(),
            forall|j: int| 0 <= j < i ==> #[trigger] words@[j]@ != word@,
        decreases words.len() - i,
    {
        if words[i] == *word {
            return true;
        }
        i += 1;
    }
    false
}

/// Whether no word occurs twice.
pub open spec fn all_differ(words: Seq<String>) -> bool {
    forall|i: int, j: int|
        0 <= i < words.len() && 0 <= j < words.len() && i != j ==> #[trigger] words[i]@
            != #[trigger] words[j]@
}

/// The number of words that are tried for one new word before it is given
/// up.
pub const TRIES: usize = 10;

/// Generates up to `amount` words, no two alike: for each, words are
/// generated until one is new, ten at most. The first word is always new.
pub fn generate_words(
    rng: &mut ThreadRng,
    amount: usize,
    min_syllables: usize,
    max_syllables: usize,
    pattern: &str,
    categories: &Vec<LetterCategory>,
) -> (words: Vec<String>)
    requires
        min_syllables <= max_syllables,
        usable(categories@),
        forall|i: int| 0 <= i < pattern@.len() ==> !undefined_at(pattern@, categories@, i),
    ensures
        words@.len() <= amount,
        amount > 0 ==> words@.len() > 0,
        all_differ(words@),
        forall|i: int| 0 <= i < words@.len() ==> made_of_letters(categories@, #[trigger] words@[i]@),
{
    let mut words: Vec<String> = Vec::new();
    let mut wanted: usize = 0;
    while wanted < amount
        invariant
            wanted <= amount,
            words@.len() <= wanted,
            wanted > 0 ==> words@.len() > 0,
            min_syllables <= max_syllables,
            usable(categories@),
            forall|i: int| 0 <= i < pattern@.len() ==> !undefined_at(pattern@, categories@, i),
            all_differ(words@),
            forall|i: int|
                0 <= i < words@.len() ==> made_of_letters(categories@, #[trigger] words@[i]@),
        decreases amount - wanted,
    {
        let mut tries: usize = 0;
        let mut found = false;
        while tries < TRIES && !found
            invariant
                tries <= TRIES,
                wanted < amount,
                words@.len() <= wanted + if found { 1int } else { 0int },
                found ==> words@.len() >= 1,
                tries > 0 ==> words@.len() >= 1,
                min_syllables <= max_syllables,
                usable(categories@),
                forall|i: int| 0 <= i < pattern@.len() ==> !undefined_at(pattern@, categories@, i),
                all_differ(words@),
                forall|i: int|
                    0 <= i < words@.len() ==> made_of_letters(categories@, #[trigger] words@[i]@),
            decreases TRIES - tries + if found { 0int } else { 1int },
        {
            let word = generate_word(rng, min_syllables, max_syllables, pattern, categories);
            if !holds_word(&words, &word) {
                let ghost before = words@;
                words.push(word);
                found = true;
                proof {
                    assert forall|i: int, j: int|
                        0 <= i < words@.len() && 0 <= j < words@.len() && i != j implies #[trigger] words@[i]@
                        != #[trigger] words@[j]@ by {
                        if i < before.len() && j < before.len() {
                            assert(before[i]@ != before[j]@);
                        } else if i < before.len() {
                            assert(before[i]@ != word@);
                        } else {
                            assert(before[j]@ != word@);
                        }
                    }
                }
            }
            tries += 1;
        }
        wanted += 1;
    }
    words
}

/// The number of bytes a word takes.
pub open spec fn width(word: Seq<char>) -> nat {
    vstd::utf8::encode_utf8(word).len()
}

/// The width of the widest of the first `upto` words.
pub open spec fn widest(words: Seq<String>, upto: int) -> nat
    decreases upto,
{
    if upto <= 0 {
        0
    } else if width(words[upto - 1]@) > widest(words, upto - 1) {
        width(words[upto - 1]@)
    } else {
        widest(words, upto - 1)
    }
}

/// `n` blanks.
pub open spec fn blanks(n: nat) -> Seq<char> {
    Seq::new(n, |i: int| ' ')
}

/// What follows the word at `index` in the list: a line break after every
/// fifth word, else blanks up to two columns past the widest word.
pub open spec fn gap_after(words: Seq<String>, index: int) -> Seq<char> {
    if index % 5 == 4 {
        seq!['\n']
    } else {
        blanks((widest(words, words.len() as int) - width(words[index]@) + 2) as nat)
    }
}

/// The list of the first `upto` words: each word and what follows it.
pub open spec fn laid_out(words: Seq<String>, upto: int) -> Seq<char>
    decreases upto,
{
    if upto <= 0 {
        Seq::empty()
    } else {
        laid_out(words, upto - 1) + words[upto - 1]@ + gap_after(words, upto - 1)
    }
}

proof fn lemma_widest_bounds(words: Seq<String>, upto: int, index: int)
    requires
        0 <= index < upto <= words.len(),
    ensures
        width(words[index]@) <= widest(words, upto),
    decreases upto,
{
    if index < upto - 1 {
        lemma_widest_bounds(words, upto - 1, index);
    }
}

/// Lays the words out in columns, five to a line.
pub fn layout(words: &Vec<String>) -> (list: String)
    ensures
        list@ == laid_out(words@, words@.len() as int),
{
    let mut longest: usize = 0;
    let mut i: usize = 0;
    while i < words.len()
        invariant
            i <= words.len(),
            longest == widest(words@, i as int),
        decreases words.len() - i,
    {
        let text = words[i].as_str();
        let w = text.as_bytes().len();
        assert(w == width(words@[i as int]@)) by {
            assert(text@ == words@[i as int]@);
            assert(text.spec_bytes() == vstd::utf8::encode_utf8(text@));
        }
        if w > longest {
            longest = w;
        }
        i += 1;
    }
    let mut list = String::new();
    let mut index: usize = 0;
    while index < words.len()
        invariant
            index <= words.len(),
            longest == widest(words@, words@.len() as int),
            list@ == laid_out(words@, index as int),
        decreases words.len() - index,
    {
        let word = words[index].as_str();
        let ghost start = list@;
        list.append(word);
        if index % 5 == 4 {
            proof {
                reveal_strlit("\n");
                assert("\n"@ =~= seq!['\n']);
            }
            list.append("\n");
        } else {
            proof {
                lemma_widest_bounds(words@, words@.len() as int, index as int);
                reveal_strlit(" ");
            }
            let pad = longest - word.as_bytes().len();
            let ghost padded = list@;
            let mut put: usize = 0;
            while put < pad
                invariant
                    put <= pad,
                    list@ == padded + blanks(put as nat),
                decreases pad - put,
            {
                proof {
                    reveal_strlit(" ");
                    assert(" "@ =~= seq![' ']);
                }
                list.append(" ");
                put += 1;
                assert(list@ =~= padded + blanks(put as nat));
            }
            proof {
                assert(" "@ =~= seq![' ']);
            }
            list.append(" ");
            list.append(" ");
            assert(list@ =~= padded + blanks((pad + 2) as nat));
            assert(pad == widest(words@, words@.len() as int) - width(words@[index as int]@)) by {
                assert(word@ == words@[index as int]@);
                assert(word.spec_bytes() == vstd::utf8::encode_utf8(word@));
            }
        }
        index += 1;
    }
    list
}

/// Whether some definition names its category `c`.
pub open spec fn names(definitions: Seq<String>, c: char) -> bool {
    exists|i: int|
        0 <= i < definitions.len() && spec_category(#[trigger] definitions[i]@) is Ok
            && spec_category(definitions[i]@)->Ok_0.0 == c
}

/// Whether the character at `index` of the pattern has no meaning of its
/// own and no definition names it.
pub open spec fn unnamed_at(pattern: Seq<char>, definitions: Seq<String>, index: int) -> bool {
    !is_control(pattern[index]) && !names(definitions, pattern[index])
}

/// Whether `error` is the error that the request meets first: the first
/// faulty definition, or, with every definition in order, the first
/// character of the pattern that names no category.
pub open spec fn first_error(definitions: Seq<String>, pattern: Seq<char>, error: WordgenError) -> bool {
    ||| exists|i: int| #[trigger]
        first_fault(definitions, i) && error == fault_at(
            i,
            spec_category(definitions[i]@)->Err_0,
        )
    ||| {
        &&& forall|i: int|
            0 <= i < definitions.len() ==> spec_category(#[trigger] definitions[i]@) is Ok
        &&& exists|k: int|
            0 <= k < pattern.len() && #[trigger] unnamed_at(pattern, definitions, k) && error
                == WordgenError::Undefined(pattern[k]) && forall|j: int|
                0 <= j < k ==> !unnamed_at(pattern, definitions, j)
    }
}

/// Whether the request meets no error.
pub open spec fn in_order(definitions: Seq<String>, pattern: Seq<char>) -> bool {
    &&& forall|i: int|
        0 <= i < definitions.len() ==> spec_category(#[trigger] definitions[i]@) is Ok
    &&& forall|k: int| 0 <= k < pattern.len() ==> !unnamed_at(pattern, definitions, k)
}

proof fn lemma_defined_is_named(
    categories: Seq<LetterCategory>,
    definitions: Seq<String>,
    upto: int,
    c: char,
)
    requires
        defined_by(categories, definitions),
        0 <= upto <= categories.len(),
    ensures
        defined_at(categories.take(upto), c) is Some <==> exists|i: int|
            0 <= i < upto && spec_category(#[trigger] definitions[i]@) is Ok && spec_category(
                definitions[i]@,
            )->Ok_0.0 == c,
    decreases upto,
{
    if upto > 0 {
        lemma_defined_is_named(categories, definitions, upto - 1, c);
        assert(categories.take(upto).drop_last() =~= categories.take(upto - 1));
        assert(categories.take(upto).last() == categories[upto - 1]);
        assert(spec_category(definitions[upto - 1]@)->Ok_0.0 == categories[upto - 1].name);
        if defined_at(categories.take(upto), c) is Some {
            if categories[upto - 1].name == c {
                assert(spec_category(definitions[upto - 1]@) is Ok);
            }
        }
    }
}

proof fn lemma_undefined_is_unnamed(
    categories: Seq<LetterCategory>,
    definitions: Seq<String>,
    pattern: Seq<char>,
    index: int,
)
    requires
        defined_by(categories, definitions),
    ensures
        undefined_at(pattern, categories, index) == unnamed_at(pattern, definitions, index),
{
    lemma_defined_is_named(categories, definitions, categories.len() as int, pattern[index]);
    assert(categories.take(categories.len() as int) =~= categories);
}

/// Whether `c` occurs in a letter that some definition gives.
pub open spec fn from_definitions(definitions: Seq<String>, c: char) -> bool {
    exists|i: int, j: int, k: int|
        0 <= i < definitions.len() && spec_category(definitions[i]@) is Ok && 0 <= j
            < spec_category(definitions[i]@)->Ok_0.1.len() && 0 <= k < spec_category(
            definitions[i]@,
        )->Ok_0.1[j].len() && #[trigger] spec_category(definitions[i]@)->Ok_0.1[j][k] == c
}

/// Whether every word consists of characters of the letters that the
/// definitions give.
pub open spec fn all_from_definitions(definitions: Seq<String>, words: Seq<String>) -> bool {
    forall|w: int, q: int|
        0 <= w < words.len() && 0 <= q < words[w]@.len() ==> from_definitions(
            definitions,
            #[trigger] words[w]@[q],
        )
}

proof fn lemma_letters_are_defined(
    categories: Seq<LetterCategory>,
    definitions: Seq<String>,
    c: char,
)
    requires
        defined_by(categories, definitions),
        from_letters(categories, c),
    ensures
        from_definitions(definitions, c),
{
    let (i, j, k) = choose|i: int, j: int, k: int|
        0 <= i < categories.len() && 0 <= j < categories[i].letters@.len() && 0 <= k
            < categories[i].letters@[j]@.len() && #[trigger] categories[i].letters@[j]@[k] == c;
    let given = spec_category(definitions[i]@)->Ok_0.1;
    assert(given == texts(categories[i].letters@));
    assert(given[j] == categories[i].letters@[j]@);
    assert(given[j][k] == c);
}

/// Generates a list of words: reads the categories, checks the pattern,
/// generates up to `amount` different words and lays them out. The first
/// fault in a definition, and after that the first character of the
/// pattern that names no category, ends it with an error.
pub fn wordgen(
    rng: &mut ThreadRng,
    amount: usize,
    min_syllables: usize,
    max_syllables: usize,
    pattern: &str,
    definitions: &Vec<String>,
) -> (list: Result<String, WordgenError>)
    requires
        min_syllables <= max_syllables,
    ensures
        match list {
            Ok(text) => in_order(definitions@, pattern@) && exists|words: Seq<String>|
                words.len() <= amount && (amount > 0 ==> words.len() > 0) && all_differ(words)
                    && all_from_definitions(
                    definitions@,
                    words,
                ) && text@ == #[trigger] laid_out(words, words.len() as int),
            Err(error) => first_error(definitions@, pattern@, error),
        },
{
    let categories = match read_categories(definitions) {
        Ok(categories) => categories,
        Err(error) => { return Err(error); },
    };
    proof {
        assert forall|k: int| 0 <= k < pattern@.len() implies undefined_at(
            pattern@,
            categories@,
            k,
        ) == unnamed_at(pattern@, definitions@, k) by {
            lemma_undefined_is_unnamed(categories@, definitions@, pattern@, k);
        }
    }
    match check_pattern(pattern, &categories) {
        Ok(_) => {},
        Err(c) => {
            return Err(WordgenError::Undefined(c));
        },
    }
    let words = generate_words(rng, amount, min_syllables, max_syllables, pattern, &categories);
    let text = layout(&words);
    proof {
        assert forall|w: int, q: int|
            0 <= w < words@.len() && 0 <= q < words@[w]@.len() implies from_definitions(
            definitions@,
            #[trigger] words@[w]@[q],
        ) by {
            assert(made_of_letters(categories@, words@[w]@));
            lemma_letters_are_defined(categories@, definitions@, words@[w]@[q]);
        }
        assert(text@ == laid_out(words@, words@.len() as int));
    }
    Ok(text)
}

} // verus!
