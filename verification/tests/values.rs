use shah::models::{Binary, Gene as OutsideGene, GeneId};
use shah_visual::field::{FieldShow, Scalar, Shown};
use shah_visual::gene::{gene_field, is_all_zero, Gene, GENE_SIZE};
use shah_visual::num::{format_signed, format_unsigned, format_wide, read_le, read_le_signed};
use shah_visual::number::{number_list, read_float32_bits, read_float64_bits, Number, NumberKind};
use shah_visual::text::{find_zero, lossy_text, read_text};

#[test]
fn little_endian_numbers_are_read_least_byte_first() {
    assert_eq!(read_le(&[]), 0);
    assert_eq!(read_le(&[0x2a]), 42);
    assert_eq!(read_le(&[0x34, 0x12]), 0x1234);
    assert_eq!(read_le(&[0x78, 0x56, 0x34, 0x12]), 0x12345678);
    assert_eq!(read_le(&[1, 0, 0, 0, 0, 0, 0, 0]), 1);
    assert_eq!(read_le(&[0xff; 8]), u64::MAX);
    assert_eq!(read_le(&0x0102030405060708u64.to_le_bytes()), 0x0102030405060708);
}

#[test]
fn signed_numbers_are_twos_complement() {
    assert_eq!(read_le_signed(&[0x7f]), 127);
    assert_eq!(read_le_signed(&[0x80]), -128);
    assert_eq!(read_le_signed(&[0xff]), -1);
    assert_eq!(read_le_signed(&(-2i16).to_le_bytes()), -2);
    assert_eq!(read_le_signed(&i16::MIN.to_le_bytes()), i16::MIN as i64);
    assert_eq!(read_le_signed(&i32::MIN.to_le_bytes()), i32::MIN as i64);
    assert_eq!(read_le_signed(&i32::MAX.to_le_bytes()), i32::MAX as i64);
    assert_eq!(read_le_signed(&i64::MIN.to_le_bytes()), i64::MIN);
    assert_eq!(read_le_signed(&i64::MAX.to_le_bytes()), i64::MAX);
    assert_eq!(read_le_signed(&(-1i64).to_le_bytes()), -1);
}

#[test]
fn integers_are_written_in_decimal() {
    assert_eq!(format_unsigned(0), "0");
    assert_eq!(format_unsigned(7), "7");
    assert_eq!(format_unsigned(10), "10");
    assert_eq!(format_unsigned(1234567890), "1234567890");
    assert_eq!(format_unsigned(u64::MAX), "18446744073709551615");
    assert_eq!(format_signed(0), "0");
    assert_eq!(format_signed(-1), "-1");
    assert_eq!(format_signed(i64::MIN), "-9223372036854775808");
    assert_eq!(format_signed(i64::MAX), "9223372036854775807");
    assert_eq!(format_wide(i128::MIN), i128::MIN.to_string());
    assert_eq!(format_wide(i128::MAX), i128::MAX.to_string());
    assert_eq!(format_wide(-305), "-305");
}

#[test]
fn numeric_fields_round_trip_through_their_text() {
    fn shown(kind: NumberKind, bytes: &[u8]) -> String {
        match FieldShow::Number(kind).show(bytes) {
            Shown::Text(s) => s,
            other => panic!("no text: {other:?}"),
        }
    }
    for v in [0u8, 1, 9, 10, 99, 100, 127, 128, 200, 255] {
        assert_eq!(shown(NumberKind::U8, &v.to_le_bytes()).parse::<u8>(), Ok(v));
        let s = v as i8;
        assert_eq!(shown(NumberKind::I8, &s.to_le_bytes()).parse::<i8>(), Ok(s));
    }
    for v in [0u16, 1, 255, 256, 32767, 32768, 65535] {
        assert_eq!(shown(NumberKind::U16, &v.to_le_bytes()).parse::<u16>(), Ok(v));
        let s = v as i16;
        assert_eq!(shown(NumberKind::I16, &s.to_le_bytes()).parse::<i16>(), Ok(s));
    }
    for v in [0u32, 1, 65536, 0x7fff_ffff, 0x8000_0000, u32::MAX] {
        assert_eq!(shown(NumberKind::U32, &v.to_le_bytes()).parse::<u32>(), Ok(v));
        let s = v as i32;
        assert_eq!(shown(NumberKind::I32, &s.to_le_bytes()).parse::<i32>(), Ok(s));
    }
    for v in [0u64, 1, 1 << 32, 0x7fff_ffff_ffff_ffff, 0x8000_0000_0000_0000, u64::MAX] {
        assert_eq!(shown(NumberKind::U64, &v.to_le_bytes()).parse::<u64>(), Ok(v));
        let s = v as i64;
        assert_eq!(shown(NumberKind::I64, &s.to_le_bytes()).parse::<i64>(), Ok(s));
    }
}

#[test]
fn floats_are_handed_out_by_their_bits() {
    let x = 1.5f32;
    assert_eq!(FieldShow::Number(NumberKind::F32).show(&x.to_le_bytes()), Shown::Float32(x.to_bits()));
    let y = -2.25e100f64;
    assert_eq!(FieldShow::Number(NumberKind::F64).show(&y.to_le_bytes()), Shown::Float64(y.to_bits()));
    assert_eq!(Number::read(NumberKind::F32, &x.to_le_bytes()), Number::Float32(x.to_bits()));
    assert_eq!(Number::read(NumberKind::F32, &x.to_le_bytes()).text(), None);
    let mut bytes = Vec::new();
    for v in [0.0f32, -1.0, 3.25] {
        bytes.extend_from_slice(&v.to_le_bytes());
    }
    let bits = read_float32_bits(&bytes);
    assert_eq!(bits.iter().map(|b| f32::from_bits(*b)).collect::<Vec<_>>(), vec![0.0, -1.0, 3.25]);
    assert_eq!(FieldShow::Numbers(NumberKind::F32).show(&bytes), Shown::Float32s(bits));
    let mut bytes = Vec::new();
    for v in [1e300f64, -0.5] {
        bytes.extend_from_slice(&v.to_le_bytes());
    }
    let bits = read_float64_bits(&bytes);
    assert_eq!(bits.iter().map(|b| f64::from_bits(*b)).collect::<Vec<_>>(), vec![1e300, -0.5]);
    assert_eq!(FieldShow::Numbers(NumberKind::F64).show(&bytes), Shown::Float64s(bits));
}

#[test]
fn float_sort_keys_follow_the_total_order() {
    let values = [
        f32::NEG_INFINITY,
        -1.0e30,
        -1.0,
        -f32::MIN_POSITIVE,
        -0.0,
        0.0,
        f32::MIN_POSITIVE,
        1.0,
        2.5,
        f32::INFINITY,
        f32::NAN,
    ];
    let scalar = Scalar::Number(NumberKind::F32);
    for a in values {
        for b in values {
            let ka = scalar.sort_key(&a.to_le_bytes());
            let kb = scalar.sort_key(&b.to_le_bytes());
            assert_eq!(ka.cmp(&kb), a.total_cmp(&b), "{a} and {b}");
        }
    }
    let values = [f64::NEG_INFINITY, -3.5, -0.0, 0.0, 1.0e-300, 7.0, f64::INFINITY, f64::NAN];
    let scalar = Scalar::Number(NumberKind::F64);
    for a in values {
        for b in values {
            let ka = scalar.sort_key(&a.to_le_bytes());
            let kb = scalar.sort_key(&b.to_le_bytes());
            assert_eq!(ka.cmp(&kb), a.total_cmp(&b), "{a} and {b}");
        }
    }
}

#[test]
fn integer_and_boolean_sort_keys_are_the_values() {
    assert_eq!(Scalar::Number(NumberKind::U64).sort_key(&u64::MAX.to_le_bytes()), u64::MAX as i128);
    assert_eq!(Scalar::Number(NumberKind::I64).sort_key(&i64::MIN.to_le_bytes()), i64::MIN as i128);
    assert_eq!(Scalar::Number(NumberKind::I8).sort_key(&[0xfe]), -2);
    assert_eq!(Scalar::Number(NumberKind::U16).sort_key(&[1, 1]), 257);
    assert_eq!(Scalar::Bool.sort_key(&[0]), 0);
    assert_eq!(Scalar::Bool.sort_key(&[1]), 1);
    assert_eq!(Scalar::Bool.sort_key(&[200]), 1);
}

#[test]
fn booleans_are_true_unless_zero() {
    assert_eq!(FieldShow::Bool.show(&[0]), Shown::Text("false".to_string()));
    assert_eq!(FieldShow::Bool.show(&[1]), Shown::Text("true".to_string()));
    assert_eq!(FieldShow::Bool.show(&[0x80]), Shown::Text("true".to_string()));
}

#[test]
fn number_lists_stand_in_brackets() {
    assert_eq!(number_list(NumberKind::U8, &[]), "[]");
    assert_eq!(number_list(NumberKind::U8, &[7]), "[7]");
    assert_eq!(number_list(NumberKind::U8, &[1, 2, 3]), "[1, 2, 3]");
    assert_eq!(number_list(NumberKind::I8, &[0xff, 0x80, 5]), "[-1, -128, 5]");
    let mut bytes = Vec::new();
    for v in [70000u32, 0, u32::MAX] {
        bytes.extend_from_slice(&v.to_le_bytes());
    }
    assert_eq!(number_list(NumberKind::U32, &bytes), format!("{:?}", [70000u32, 0, u32::MAX]));
    let mut bytes = Vec::new();
    for v in [-5i64, i64::MIN] {
        bytes.extend_from_slice(&v.to_le_bytes());
    }
    assert_eq!(number_list(NumberKind::I64, &bytes), format!("{:?}", [-5i64, i64::MIN]));
    assert_eq!(
        FieldShow::Numbers(NumberKind::U16).show(&[1, 0, 0, 1]),
        Shown::Text("[1, 256]".to_string())
    );
}

#[test]
fn string_of_zeros_is_the_empty_marker() {
    assert_eq!(FieldShow::Str.show(&[0u8; 16]), Shown::Empty);
    assert_eq!(FieldShow::Str.show(&[]), Shown::Empty);
    assert_eq!(FieldShow::Str.show(&[0, b'a', b'b']), Shown::Empty);
    assert_eq!(read_text(&[0u8; 16]), "");
}

#[test]
fn string_without_a_zero_is_read_in_full() {
    assert_eq!(FieldShow::Str.show(b"abcd"), Shown::Text("abcd".to_string()));
    assert_eq!(read_text(b"abcd"), "abcd");
    assert_eq!(find_zero(b"abcd"), 4);
}

#[test]
fn string_ends_at_the_first_zero() {
    assert_eq!(read_text(b"abc\0def\0"), "abc");
    assert_eq!(find_zero(b"abc\0def\0"), 3);
    assert_eq!(find_zero(&[]), 0);
    assert_eq!(FieldShow::Str.show(b"hi\0\0\0"), Shown::Text("hi".to_string()));
}

#[test]
fn text_is_cut_at_the_first_byte_that_is_not_utf8() {
    assert_eq!(lossy_text("héllo".as_bytes()), "héllo");
    assert_eq!(lossy_text(&[b'a', b'b', 0xff, b'c']), "ab");
    // a two-byte character cut in half
    assert_eq!(lossy_text(&[b'a', 0xc3]), "a");
    assert_eq!(lossy_text(&[0x80]), "");
    assert_eq!(lossy_text(&[]), "");
    // zero bytes are characters like any other here
    assert_eq!(lossy_text(&[b'a', 0, b'b']), "a\0b");
    assert_eq!(read_text(&[b'o', b'k', 0xfe, 0, b'x']), "ok");
    assert_eq!(FieldShow::Str.show(&[0xff, b'a', 0]), Shown::Empty);
}

fn gene_bytes(id: u64, iter: u8, pepper: [u8; 3], server: u32) -> Vec<u8> {
    let outside = OutsideGene { id: GeneId(id), iter, pepper, server };
    outside.as_binary().to_vec()
}

#[test]
fn gene_size_matches_shah() {
    assert_eq!(GENE_SIZE, OutsideGene::S);
}

#[test]
fn gene_of_zeros_is_absent() {
    assert_eq!(Gene::decode(&[0u8; 16]), None);
    assert!(is_all_zero(&[0u8; 16]));
    assert!(is_all_zero(&[]));
    assert_eq!(FieldShow::Gene.show(&[0u8; 16]), Shown::Text("---".to_string()));
    assert_eq!(gene_field(&[0u8; 16], "Gene(---)"), "Gene(---)");
}

#[test]
fn gene_with_any_nonzero_byte_has_all_four_parts() {
    let bytes = gene_bytes(0x0102030405060708, 9, [10, 11, 12], 0x0d0e0f10);
    let gene = Gene::decode(&bytes).unwrap();
    assert_eq!(gene, Gene { id: 0x0102030405060708, iter: 9, pepper: [10, 11, 12], server: 0x0d0e0f10 });
    assert_eq!(Gene::from_binary(&bytes), gene);
    for at in 0..16 {
        let mut bytes = [0u8; 16];
        bytes[at] = 1;
        let gene = Gene::decode(&bytes).unwrap();
        let outside = OutsideGene::from_binary(&bytes);
        assert_eq!(gene.id, outside.id.0);
        assert_eq!(gene.iter, outside.iter);
        assert_eq!(gene.pepper, outside.pepper);
        assert_eq!(gene.server, outside.server);
        assert!(!is_all_zero(&bytes));
    }
    // the id alone does not decide: a gene with id zero and a server is there
    let gene = Gene::decode(&gene_bytes(0, 0, [0, 0, 0], 5)).unwrap();
    assert!(gene.is_none());
    assert_eq!(gene.server, 5);
}

#[test]
fn gene_text_lists_the_parts() {
    let gene = Gene { id: 77, iter: 2, pepper: [1, 20, 255], server: 4000000000 };
    assert_eq!(gene.text(), "Gene(77, 2, [1, 20, 255], 4000000000)");
    let outside = OutsideGene { id: GeneId(77), iter: 2, pepper: [1, 20, 255], server: 4000000000 };
    assert_eq!(
        gene.text(),
        format!("Gene({}, {}, {:?}, {})", outside.id, outside.iter, outside.pepper, outside.server)
    );
    let bytes = gene_bytes(77, 2, [1, 20, 255], 4000000000);
    assert_eq!(FieldShow::Gene.show(&bytes), Shown::Text(gene.text()));
}

#[test]
fn gene_lists_have_one_row_each() {
    let mut bytes = gene_bytes(1, 0, [0, 0, 0], 0);
    bytes.extend_from_slice(&[0u8; 16]);
    bytes.extend_from_slice(&gene_bytes(3, 1, [9, 9, 9], 2));
    let rows = match FieldShow::Genes.show(&bytes) {
        Shown::Rows(rows) => rows,
        other => panic!("no rows: {other:?}"),
    };
    assert_eq!(
        rows,
        vec![
            ("0:".to_string(), "Gene(1, 0, [0, 0, 0], 0)".to_string()),
            ("1:".to_string(), "---".to_string()),
            ("2:".to_string(), "Gene(3, 1, [9, 9, 9], 2)".to_string()),
        ]
    );
    assert_eq!(FieldShow::Genes.show(&[]), Shown::Rows(vec![]));
}

#[test]
fn nothing_is_shown_for_what_has_no_show() {
    assert_eq!(FieldShow::Nothing.show(&[1, 2, 3]), Shown::Nothing);
}

#[test]
fn number_kinds_have_widths_and_names() {
    let kinds = [
        (NumberKind::U8, 1, "u8", false),
        (NumberKind::U16, 2, "u16", false),
        (NumberKind::U32, 4, "u32", false),
        (NumberKind::U64, 8, "u64", false),
        (NumberKind::I8, 1, "i8", false),
        (NumberKind::I16, 2, "i16", false),
        (NumberKind::I32, 4, "i32", false),
        (NumberKind::I64, 8, "i64", false),
        (NumberKind::F32, 4, "f32", true),
        (NumberKind::F64, 8, "f64", true),
    ];
    for (kind, width, name, float) in kinds {
        assert_eq!(kind.width(), width);
        assert_eq!(kind.name(), name);
        assert_eq!(kind.is_float(), float);
    }
}
