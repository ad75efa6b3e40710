use version_projection::{ComponentName, ContractVersion, ContractVersionError, LiteralDecodeError};

fn ones_literal() -> String {
    format!("#{}", "01".repeat(32))
}

#[test]
fn zero_version_is_all_zero_bytes() {
    assert_eq!(ContractVersion::zero().bytes(), &[0u8; 32]);
    assert_eq!(
        ContractVersion::zero().to_nota_literal(),
        format!("#{}", "0".repeat(64))
    );
}

#[test]
fn literal_spells_bytes_high_digit_first_in_lowercase() {
    let mut bytes = [0u8; 32];
    for (index, byte) in bytes.iter_mut().enumerate() {
        *byte = (index as u8) * 8 + 3;
    }
    let version = ContractVersion::new(bytes);
    let literal = version.to_nota_literal();
    assert_eq!(
        literal,
        "#030b131b232b333b434b535b636b737b838b939ba3abb3bbc3cbd3dbe3ebf3fb"
    );
    assert_eq!(literal.len(), 65);
    assert_eq!(ContractVersion::try_from_nota_literal(&literal), Ok(version));
}

#[test]
fn literal_round_trips_every_byte_value() {
    for start in [0u8, 32, 64, 96, 128, 160, 192, 224] {
        let mut bytes = [0u8; 32];
        for (index, byte) in bytes.iter_mut().enumerate() {
            *byte = start + index as u8;
        }
        let version = ContractVersion::new(bytes);
        let literal = version.to_nota_literal();
        assert_eq!(ContractVersion::try_from_nota_literal(&literal), Ok(version));
    }
}

#[test]
fn uppercase_literal_parses_and_prints_lowercase() {
    let upper = format!("#{}", "AB".repeat(32));
    let version = ContractVersion::try_from_nota_literal(&upper).expect("uppercase digits");
    assert_eq!(version.bytes(), &[0xab; 32]);
    assert_eq!(version.to_nota_literal(), format!("#{}", "ab".repeat(32)));
}

#[test]
fn mixed_case_literal_parses() {
    let mixed = format!("#{}", "fF".repeat(32));
    assert_eq!(
        ContractVersion::try_from_nota_literal(&mixed),
        Ok(ContractVersion::new([0xff; 32]))
    );
}

#[test]
fn literal_without_marker_is_invalid_literal() {
    let text = "01".repeat(32);
    assert_eq!(
        ContractVersion::try_from_nota_literal(&text),
        Err(ContractVersionError::InvalidLiteral { value: text.clone() })
    );
    assert_eq!(
        ContractVersion::try_from_nota_literal(""),
        Err(ContractVersionError::InvalidLiteral { value: String::new() })
    );
}

#[test]
fn literal_with_wrong_digit_count_is_invalid_length() {
    assert_eq!(
        ContractVersion::try_from_nota_literal("#abc"),
        Err(ContractVersionError::InvalidLength { length: 1 })
    );
    assert_eq!(
        ContractVersion::try_from_nota_literal("#"),
        Err(ContractVersionError::InvalidLength { length: 0 })
    );
    let long = format!("{}00", ones_literal());
    assert_eq!(
        ContractVersion::try_from_nota_literal(&long),
        Err(ContractVersionError::InvalidLength { length: 33 })
    );
}

#[test]
fn literal_with_non_hex_digit_is_invalid_literal() {
    let text = format!("#{}zz", "01".repeat(31));
    assert_eq!(
        ContractVersion::try_from_nota_literal(&text),
        Err(ContractVersionError::InvalidLiteral { value: text.clone() })
    );
}

#[test]
fn literal_length_counts_utf8_bytes() {
    // 31 two-digit pairs and one two-byte character: 64 bytes of digits.
    let text = format!("#{}\u{e9}", "01".repeat(31));
    assert_eq!(text.len(), 65);
    assert_eq!(
        ContractVersion::try_from_nota_literal(&text),
        Err(ContractVersionError::InvalidLiteral { value: text.clone() })
    );
    // 32 two-byte characters: 64 bytes, 32 characters.
    let wide = format!("#{}", "\u{e9}".repeat(32));
    assert_eq!(
        ContractVersion::try_from_nota_literal(&wide),
        Err(ContractVersionError::InvalidLiteral { value: wide.clone() })
    );
    // 32 one-byte characters: 16 "bytes" of digits.
    let short = format!("#{}", "0".repeat(32));
    assert_eq!(
        ContractVersion::try_from_nota_literal(&short),
        Err(ContractVersionError::InvalidLength { length: 16 })
    );
}

#[test]
fn try_from_bytes_takes_exactly_thirty_two_bytes() {
    let bytes: Vec<u8> = (0..32).collect();
    let version = ContractVersion::try_from_bytes(bytes.clone()).expect("32 bytes");
    assert_eq!(version.bytes().to_vec(), bytes);
    assert_eq!(
        ContractVersion::try_from_bytes(vec![1; 31]),
        Err(ContractVersionError::InvalidLength { length: 31 })
    );
    assert_eq!(
        ContractVersion::try_from_bytes(vec![]),
        Err(ContractVersionError::InvalidLength { length: 0 })
    );
    assert_eq!(
        ContractVersion::try_from_bytes(vec![1; 33]),
        Err(ContractVersionError::InvalidLength { length: 33 })
    );
}

#[test]
fn contract_version_error_messages() {
    assert_eq!(
        ContractVersionError::InvalidLength { length: 31 }.to_string(),
        "contract version hash must be 32 bytes, got 31"
    );
    assert_eq!(
        ContractVersionError::InvalidLength { length: 0 }.to_string(),
        "contract version hash must be 32 bytes, got 0"
    );
    assert_eq!(
        ContractVersionError::InvalidLength { length: 1234567890 }.to_string(),
        "contract version hash must be 32 bytes, got 1234567890"
    );
    assert_eq!(
        ContractVersionError::InvalidLiteral { value: "oops".to_string() }.to_string(),
        "contract version must be a #hex byte literal: oops"
    );
}

#[test]
fn contract_versions_compare_by_bytes() {
    let a = ContractVersion::new([1; 32]);
    let b = ContractVersion::new([1; 32]);
    let mut other = [1; 32];
    other[31] = 2;
    let c = ContractVersion::new(other);
    assert_eq!(a, b);
    assert_ne!(a, c);
    assert!(a < c);
}

#[test]
fn nota_atom_decodes_literal_or_reports_why() {
    assert_eq!(
        ContractVersion::from_nota_atom(Some(&ones_literal())),
        Ok(ContractVersion::new([1; 32]))
    );
    assert_eq!(
        ContractVersion::from_nota_atom(None),
        Err(LiteralDecodeError::ExpectedAtom { expected_type: "ContractVersion" })
    );
    assert_eq!(
        ContractVersion::from_nota_atom(Some("#00")),
        Err(LiteralDecodeError::Parse(
            "contract version hash must be 32 bytes, got 1".to_string()
        ))
    );
    assert_eq!(
        ContractVersion::from_nota_atom(Some("nope")),
        Err(LiteralDecodeError::Parse(
            "contract version must be a #hex byte literal: nope".to_string()
        ))
    );
}

#[test]
fn component_name_keeps_its_text() {
    let name = ComponentName::new("persona-spirit");
    assert_eq!(name.as_str(), "persona-spirit");
    assert_eq!(ComponentName::new("").as_str(), "");
    assert_eq!(name.clone(), name);
}
