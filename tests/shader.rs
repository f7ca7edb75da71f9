use maxhell::{
    assemble_shader, encode_exit, encode_nop, encode_ram, encode_ret, encode_sam, unpack,
    ControlCode, Field, SCHEDULING_PLACEHOLDER,
};

fn word_at(bytes: &[u8], offset: usize) -> u64 {
    u64::from_le_bytes(bytes[offset..offset + 8].try_into().unwrap())
}

fn padding() -> u64 {
    encode_nop(false, 7, false, 0, ControlCode::TRUE).unwrap()
}

#[test]
fn five_words_make_two_blocks() {
    let words = vec![
        encode_ram(),
        encode_sam(),
        encode_ret(7, false, ControlCode::TRUE).unwrap(),
        encode_exit(7, false, ControlCode::TRUE, false).unwrap(),
        encode_nop(false, 7, false, 0, ControlCode::TRUE).unwrap(),
    ];
    let out = assemble_shader(&words);
    assert_eq!(out.len(), 64);
    assert_eq!(word_at(&out, 0), SCHEDULING_PLACEHOLDER);
    assert_eq!(word_at(&out, 8), words[0]);
    assert_eq!(word_at(&out, 16), words[1]);
    assert_eq!(word_at(&out, 24), words[2]);
    assert_eq!(word_at(&out, 32), SCHEDULING_PLACEHOLDER);
    assert_eq!(word_at(&out, 40), words[3]);
    assert_eq!(word_at(&out, 48), words[4]);
    assert_eq!(word_at(&out, 56), padding());
}

#[test]
fn placeholder_bytes_are_little_endian() {
    let out = assemble_shader(&[encode_ram()]);
    assert_eq!(&out[0..8], &[0xe0, 0x07, 0x00, 0xfc, 0x00, 0x80, 0x1f, 0x00]);
    assert_eq!(&out[8..16], &[0, 0, 0, 0, 0, 0, 0x80, 0xe3]);
}

#[test]
fn empty_input_gives_empty_image() {
    assert_eq!(assemble_shader(&[]).len(), 0);
}

#[test]
fn image_length_and_block_shape() {
    for n in 0usize..40 {
        let words: Vec<u64> = (0..n as u64).map(|i| 0x1000 + i).collect();
        let out = assemble_shader(&words);
        let blocks = (n + 2) / 3;
        let expected = 32 * ((n + blocks + 3) / 4);
        assert_eq!(out.len(), expected);
        assert_eq!(out.len() % 32, 0);
        let mut next = 0;
        for offset in (0..out.len()).step_by(8) {
            let w = word_at(&out, offset);
            if offset % 32 == 0 {
                assert_eq!(w, SCHEDULING_PLACEHOLDER);
            } else if next < n {
                assert_eq!(w, words[next]);
                next += 1;
            } else {
                assert_eq!(w, padding());
                assert_eq!(unpack(w, Field::NopConditionCode), 15);
            }
        }
        assert_eq!(next, n);
    }
}

#[test]
fn padding_nop_always_executes() {
    let w = padding();
    assert_eq!(w, 0x50b0000000070f00);
    assert_eq!(unpack(w, Field::NopConditionCode), ControlCode::TRUE.raw() as i64);
    assert_eq!(unpack(w, Field::Predicate), 7);
}
