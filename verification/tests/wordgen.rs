use conlang_bot::wordgen::{
    apply_char, check_pattern, find_definition, generate_word, generate_words, layout,
    read_categories, read_category, split_pieces, wordgen, CategoryFault, LetterCategory,
    WordgenError,
};

fn strings(texts: &[&str]) -> Vec<String> {
    texts.iter().map(|text| text.to_string()).collect()
}

fn categories(definitions: &[&str]) -> Vec<LetterCategory> {
    match read_categories(&strings(definitions)) {
        Ok(categories) => categories,
        Err(error) => panic!("{error:?}"),
    }
}

#[test]
fn texts_are_split_at_every_mark() {
    assert_eq!(split_pieces("a,b,c", 0, ','), strings(&["a", "b", "c"]));
    assert_eq!(split_pieces("a,b,c", 2, ','), strings(&["b", "c"]));
    assert_eq!(split_pieces("", 0, ','), strings(&[""]));
    assert_eq!(split_pieces(",", 0, ','), strings(&["", ""]));
    assert_eq!(split_pieces("ab,,c,", 0, ','), strings(&["ab", "", "c", ""]));
    assert_eq!(split_pieces("é,ü", 0, ','), strings(&["é", "ü"]));
    assert_eq!(split_pieces("abc", 3, ','), strings(&[""]));
}

#[test]
fn categories_are_read() {
    let vowels = read_category("V:a,e,i,o,u").ok().unwrap();
    assert_eq!(vowels.name, 'V');
    assert_eq!(vowels.letters, strings(&["a", "e", "i", "o", "u"]));
    let clusters = read_category("C:st,r").ok().unwrap();
    assert_eq!(clusters.name, 'C');
    assert_eq!(clusters.letters, strings(&["st", "r"]));
    let empty = read_category("X:").ok().unwrap();
    assert_eq!(empty.letters, strings(&[""]));
    let colons = read_category("X:a:b").ok().unwrap();
    assert_eq!(colons.letters, strings(&["a:b"]));
}

#[test]
fn faulty_categories_are_refused() {
    assert_eq!(read_category("Vaeiou").err(), Some(CategoryFault::Malformed));
    assert_eq!(read_category("").err(), Some(CategoryFault::Malformed));
    assert_eq!(read_category("VV:a").err(), Some(CategoryFault::NameLength));
    assert_eq!(read_category(":a").err(), Some(CategoryFault::NameLength));
    assert_eq!(read_category("é:a").err(), Some(CategoryFault::NameLength));
    assert_eq!(
        read_categories(&strings(&["V:a", "C", "XX:a"])).err(),
        Some(WordgenError::Malformed(2))
    );
    assert_eq!(
        read_categories(&strings(&["V:a", "C:b", "XX:a", "D"])).err(),
        Some(WordgenError::NameLength(3))
    );
    assert!(read_categories(&strings(&[])).ok().unwrap().is_empty());
}

#[test]
fn the_last_definition_counts() {
    let all = categories(&["V:a", "C:b", "V:o"]);
    assert_eq!(find_definition(&all, 'V'), Some(2));
    assert_eq!(find_definition(&all, 'C'), Some(1));
    assert_eq!(find_definition(&all, 'X'), None);
    let mut rng = rand::thread_rng();
    for _ in 0..20 {
        assert_eq!(generate_word(&mut rng, 2, 2, "V", &all), "oo");
    }
}

#[test]
fn patterns_are_checked() {
    let all = categories(&["V:a", "C:b"]);
    assert_eq!(check_pattern("CVC,CV(V)(C(!))", &all), Ok(()));
    assert_eq!(check_pattern("", &all), Ok(()));
    assert_eq!(check_pattern("CVX,Y", &all), Err('X'));
    assert_eq!(check_pattern("C V", &all), Err(' '));
}

#[test]
fn characters_are_applied() {
    let mut word = String::from("ab");
    assert_eq!(apply_char(&mut word, 0, 'V', false, "xy"), 0);
    assert_eq!(word, "abxy");
    assert_eq!(apply_char(&mut word, 0, '!', false, "zz"), 0);
    assert_eq!(word, "abxyy");
    assert_eq!(apply_char(&mut word, 0, '(', false, "zz"), 0);
    assert_eq!(apply_char(&mut word, 0, '(', true, "zz"), 1);
    assert_eq!(apply_char(&mut word, 1, '(', false, "zz"), 2);
    assert_eq!(apply_char(&mut word, 2, ')', false, "zz"), 1);
    assert_eq!(apply_char(&mut word, 0, ')', true, "zz"), 0);
    assert_eq!(apply_char(&mut word, 1, 'V', false, "zz"), 1);
    assert_eq!(apply_char(&mut word, 3, '!', true, "zz"), 3);
    assert_eq!(word, "abxyy");
    let mut empty = String::new();
    assert_eq!(apply_char(&mut empty, 0, '!', false, "zz"), 0);
    assert_eq!(empty, "");
}

#[test]
fn words_are_made_of_the_letters() {
    let all = categories(&["V:a,e", "C:st,r"]);
    let mut rng = rand::thread_rng();
    for _ in 0..200 {
        let word = generate_word(&mut rng, 1, 3, "CV(C(!)),V", &all);
        assert!(!word.is_empty());
        assert!(word.chars().all(|c| "aestr".contains(c)), "{word}");
        assert!(word.chars().count() <= 3 * 6, "{word}");
    }
    for _ in 0..20 {
        assert_eq!(generate_word(&mut rng, 0, 0, "CV", &all), "");
        assert_eq!(generate_word(&mut rng, 3, 3, "", &all), "");
    }
}

#[test]
fn generated_words_differ() {
    let all = categories(&["V:a,e", "C:b"]);
    let mut rng = rand::thread_rng();
    for _ in 0..50 {
        let words = generate_words(&mut rng, 10, 1, 1, "V,C", &all);
        assert!(words.len() <= 3);
        assert!(!words.is_empty());
        for (i, word) in words.iter().enumerate() {
            assert!(["a", "e", "b"].contains(&word.as_str()));
            assert!(!words[..i].contains(word));
        }
    }
    assert!(generate_words(&mut rng, 0, 1, 1, "V", &all).is_empty());
}

#[test]
fn words_are_laid_out_five_to_a_line() {
    assert_eq!(layout(&strings(&[])), "");
    assert_eq!(layout(&strings(&["ab"])), "ab  ");
    assert_eq!(layout(&strings(&["a", "abc"])), "a    abc  ");
    assert_eq!(
        layout(&strings(&["a", "bb", "c", "d", "e", "f"])),
        "a   bb  c   d   e\nf   "
    );
    assert_eq!(layout(&strings(&["é", "a"])), "é  a   ");
}

#[test]
fn a_word_list_is_generated_or_refused() {
    let mut rng = rand::thread_rng();
    assert_eq!(
        wordgen(&mut rng, 5, 1, 1, "V", &strings(&["V:a"])),
        Ok("a  ".to_string())
    );
    assert_eq!(
        wordgen(&mut rng, 5, 1, 1, "VX", &strings(&["V:a", "C"])),
        Err(WordgenError::Malformed(2))
    );
    assert_eq!(
        wordgen(&mut rng, 5, 1, 1, "VX", &strings(&["V:a", "CC:b"])),
        Err(WordgenError::NameLength(2))
    );
    assert_eq!(
        wordgen(&mut rng, 5, 1, 1, "VXY", &strings(&["V:a"])),
        Err(WordgenError::Undefined('X'))
    );
    assert_eq!(wordgen(&mut rng, 0, 1, 2, "V", &strings(&["V:a"])), Ok(String::new()));
}

#[test]
fn texts_are_split_as_std_splits_them() {
    let samples = ["", ",", "a", "a,b", ",a,,b,", "CVC,CV(V)(C(!)),C(VC(VVC))V", "é,ü,"];
    for sample in samples {
        let expected: Vec<String> = sample.split(',').map(|part| part.to_string()).collect();
        assert_eq!(split_pieces(sample, 0, ','), expected, "{sample:?}");
    }
}
