use openssh::escape::{escape, escape_str, whitelisted, whitelisted_char};

fn test_escape_case(input: &str, expected: &str) {
    let observed = escape(input.as_bytes());
    assert_eq!(observed, expected.as_bytes());
}

fn test_escape_from_bytes(input: &[u8], expected: &[u8]) {
    let observed = escape(input);
    assert_eq!(observed, expected);
}

#[test]
fn test_escape() {
    test_escape_case(
        "abcdefghijklmnopqrstuvwxyzABCDEFGHIJKLMNOPQRSTUVWXYZ0123456789-_=/,.+",
        "abcdefghijklmnopqrstuvwxyzABCDEFGHIJKLMNOPQRSTUVWXYZ0123456789-_=/,.+",
    );
    test_escape_case("--aaa=bbb-ccc", "--aaa=bbb-ccc");
    test_escape_case(
        "linker=gcc -L/foo -Wl,bar",
        r#"'linker=gcc -L/foo -Wl,bar'"#,
    );
    test_escape_case(r#"--features="default""#, r#"'--features="default"'"#);
    test_escape_case(r#"'!\$`\\\n "#, r#"''\'''\!'\$`\\\n '"#);
    test_escape_case("", r#"''"#);
    test_escape_case(" ", r#"' '"#);

    test_escape_from_bytes(
        &[0x66, 0x6f, 0x80, 0x6f],
        &[b'\'', 0x66, 0x6f, 0x80, 0x6f, b'\''],
    );
}

#[test]
fn whitelisted_bytes() {
    for b in b"azAZ09-_=/,.+".iter() {
        assert!(whitelisted(*b));
    }
    for b in b" '!\"$`\\*?~#&;|<>()[]{}\n\t@:%^".iter() {
        assert!(!whitelisted(*b));
    }
    assert!(!whitelisted(0x80));
    assert!(!whitelisted(0));
}

/// What a POSIX shell makes of one word: quotes removed, `\x` outside quotes
/// read as `x`.
fn shell_read_word(w: &[u8]) -> Vec<u8> {
    let mut out = Vec::new();
    let mut i = 0;
    let mut quoted = false;
    while i < w.len() {
        let c = w[i];
        if quoted {
            if c == b'\'' {
                quoted = false;
            } else {
                out.push(c);
            }
        } else if c == b'\'' {
            quoted = true;
        } else if c == b'\\' && i + 1 < w.len() {
            i += 1;
            out.push(w[i]);
        } else {
            out.push(c);
        }
        i += 1;
    }
    out
}

#[test]
fn escaped_word_reads_back() {
    for s in [
        &b"plain"[..],
        b"",
        b"it's",
        b"wow!",
        b"a b\tc",
        b"'''",
        b"!!",
        b"$HOME `id`",
        &[0xff, 0x00, b'\''],
    ] {
        assert_eq!(shell_read_word(&escape(s)), s.to_vec());
    }
}

#[test]
fn escapes_text_as_bytes_are_escaped() {
    for s in [
        "abcdefghijklmnopqrstuvwxyzABCDEFGHIJKLMNOPQRSTUVWXYZ0123456789-_=/,.+",
        "--aaa=bbb-ccc",
        "linker=gcc -L/foo -Wl,bar",
        r#"--features="default""#,
        r#"'!\$`\\\n "#,
        "",
        " ",
        "héllo wörld",
    ] {
        assert_eq!(escape_str(s).as_bytes(), &escape(s.as_bytes())[..], "{:?}", s);
    }
    assert_eq!(escape_str("it's"), r"'it'\''s'");
    assert!(whitelisted_char('a') && whitelisted_char('+'));
    assert!(!whitelisted_char('é') && !whitelisted_char(' '));
}
