use px4_param_audit::text::{
    find_text, has_prefix, has_suffix, has_text, join, lines, rsplit_once, split,
    split_once, strip_prefix, strip_prefixes, strip_suffixes, take_before, to_ascii_lower, to_chars,
    trim, trim_leading, trim_trailing, words, CharClass,
};

struct Random(u64);

impl Random {
    fn next(&mut self) -> usize {
        self.0 ^= self.0 << 13;
        self.0 ^= self.0 >> 7;
        self.0 ^= self.0 << 17;
        self.0 as usize
    }

    fn text(&mut self) -> String {
        let alphabet = [
            'a', 'b', '*', '/', ',', '=', ' ', '\t', '\n', '\r', '\u{a0}', '\u{2003}', 'D', '1',
            '\u{e4}', '.',
        ];
        (0..self.next() % 24)
            .map(|_| alphabet[self.next() % alphabet.len()])
            .collect()
    }
}

fn string(chars: &[char]) -> String {
    chars.iter().collect()
}

#[test]
fn cuts_texts_as_std_does() {
    let mut random = Random(0x1357_9bdf_2468_ace1);
    for _ in 0..3000 {
        let text = random.text();
        let c = to_chars(&text);
        assert_eq!(string(trim(&c)), text.trim());
        assert_eq!(
            string(trim_leading(&c, CharClass::Exactly('*'))),
            text.trim_start_matches('*')
        );
        assert_eq!(
            string(trim_trailing(&c, CharClass::Exactly('*'))),
            text.trim_end_matches('*')
        );
        assert_eq!(
            string(trim_leading(&c, CharClass::Space)),
            text.trim_start()
        );
        let found: Vec<String> = lines(&c).iter().map(|l| string(l)).collect();
        assert_eq!(found, text.lines().collect::<Vec<_>>());
        let found: Vec<String> = words(&c).iter().map(|l| string(l)).collect();
        assert_eq!(found, text.split_whitespace().collect::<Vec<_>>());
        let found: Vec<String> = split(&c, ',').iter().map(|l| string(l)).collect();
        assert_eq!(found, text.split(',').collect::<Vec<_>>());
        assert_eq!(
            split_once(&c, CharClass::Exactly('=')).map(|(a, b)| (string(a), string(b))),
            text.split_once('=')
                .map(|(a, b)| (a.to_string(), b.to_string()))
        );
        assert_eq!(
            split_once(&c, CharClass::Space).map(|(a, b)| (string(a), string(b))),
            text.split_once(char::is_whitespace)
                .map(|(a, b)| (a.to_string(), b.to_string()))
        );
        assert_eq!(
            rsplit_once(&c, '.').map(|(a, b)| (string(a), string(b))),
            text.rsplit_once('.')
                .map(|(a, b)| (a.to_string(), b.to_string()))
        );
        assert_eq!(
            string(take_before(&c, CharClass::Exactly('*'))),
            text.split('*').next().unwrap_or("")
        );
        for needle in ["", "a", "ab", "*/", "\u{e4}", "aab"] {
            assert_eq!(has_text(&text, needle), text.contains(needle));
            assert_eq!(has_prefix(&c, needle), text.starts_with(needle));
            assert_eq!(has_suffix(&c, needle), text.ends_with(needle));
            assert_eq!(
                strip_prefix(&c, needle).map(string),
                text.strip_prefix(needle).map(str::to_string)
            );
            assert_eq!(
                find_text(&c, &to_chars(needle)),
                text.find(needle)
                    .map(|at| text[..at].chars().count())
            );
            if !needle.is_empty() {
                assert_eq!(
                    string(strip_prefixes(&c, needle)),
                    text.trim_start_matches(needle)
                );
                assert_eq!(
                    string(strip_suffixes(&c, needle)),
                    text.trim_end_matches(needle)
                );
            }
        }
        assert_eq!(string(&to_ascii_lower(&c)), text.to_ascii_lowercase());
    }
}

#[test]
fn joins_texts_as_std_does() {
    for parts in [vec![], vec!["a"], vec!["a", "", "b"]] {
        let owned: Vec<String> = parts.iter().map(|p| p.to_string()).collect();
        assert_eq!(join(&owned, " | "), parts.join(" | "));
    }
}
