use swaypad::bytecode::bytecode_text;

#[test]
fn bytes_become_two_lowercase_digits_each() {
    assert_eq!(bytecode_text(&vec![1, 2, 3, 15, 16], "main.sw"), "0102030f10");
    assert_eq!(bytecode_text(&vec![0x00, 0xff, 0xa5, 0x5a], "main.sw"), "00ffa55a");
    assert_eq!(
        bytecode_text(&b"Hello world!".to_vec(), "main.sw"),
        "48656c6c6f20776f726c6421"
    );
}

#[test]
fn no_bytes_become_empty_text() {
    assert_eq!(bytecode_text(&Vec::new(), "main.sw"), "");
}

#[test]
fn every_byte_has_its_own_text() {
    let digits = "0123456789abcdef".as_bytes();
    let mut b: u16 = 0;
    while b < 256 {
        let text = bytecode_text(&vec![b as u8], "main.sw");
        let want = vec![digits[(b / 16) as usize], digits[(b % 16) as usize]];
        assert_eq!(text.as_bytes(), &want[..]);
        b += 1;
    }
}

#[test]
fn bytecode_reads_back_as_it_was_written() {
    let mut bin: Vec<u8> = Vec::new();
    let mut b: u16 = 0;
    while b < 256 {
        bin.push(b as u8);
        bin.push((255 - b) as u8);
        b += 1;
    }
    let text = bytecode_text(&bin, "main.sw");
    assert_eq!(text.len(), 2 * bin.len());
    assert_eq!(hex::decode(&text), Ok(bin));
}

#[test]
fn bytes_that_spell_a_path_are_still_only_digits() {
    let bin = b" /tmp/p/main.sw ".to_vec();
    let text = bytecode_text(&bin, "main.sw");
    assert_eq!(text, "202f746d702f702f6d61696e2e737720");
    assert_eq!(hex::decode(&text), Ok(bin));
}

#[test]
fn the_file_name_does_not_matter_to_bytecode() {
    assert_eq!(bytecode_text(&vec![0xab, 0xcd], ""), "abcd");
    assert_eq!(bytecode_text(&vec![0xab, 0xcd], "abcd"), "abcd");
    assert_eq!(bytecode_text(&vec![0xab, 0xcd], "cd"), "abcd");
}
