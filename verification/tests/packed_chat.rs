use grammers_core::packed_chat::PackedChat;
use grammers_core::packed_chat::PackedType;

#[test]
fn check_hex_reciprocal() {
    let pc = PackedChat {
        ty: PackedType::User,
        id: 123,
        access_hash: Some(456789),
    };
    assert_eq!(PackedChat::from_hex(&pc.to_hex()), Ok(pc));

    let pc = PackedChat {
        ty: PackedType::Chat,
        id: 987,
        access_hash: None,
    };
    assert_eq!(PackedChat::from_hex(&pc.to_hex()), Ok(pc));
}

#[test]
fn to_hex_known_values() {
    let pc = PackedChat {
        ty: PackedType::User,
        id: 123,
        access_hash: Some(456789),
    };
    assert_eq!(pc.to_hex(), "02127b0000000000000055f8060000000000");

    let pc = PackedChat {
        ty: PackedType::Chat,
        id: 987,
        access_hash: None,
    };
    assert_eq!(pc.to_hex(), "040adb03000000000000");

    let pc = PackedChat {
        ty: PackedType::Megagroup,
        id: -5,
        access_hash: Some(-1),
    };
    assert_eq!(pc.to_hex(), "2812fbffffffffffffffffffffffffffffff");
}

#[test]
fn bytes_roundtrip_negative_ids() {
    let pc = PackedChat {
        ty: PackedType::Gigagroup,
        id: i64::MIN,
        access_hash: Some(i64::MAX),
    };
    assert_eq!(PackedChat::from_bytes(&pc.to_bytes()), Ok(pc));

    let pc = PackedChat {
        ty: PackedType::Broadcast,
        id: -1,
        access_hash: None,
    };
    assert_eq!(PackedChat::from_bytes(&pc.to_bytes()), Ok(pc));
}

#[test]
fn from_bytes_rejects_malformed_buffers() {
    // Wrong length entirely.
    assert_eq!(PackedChat::from_bytes(&vec![2, 10, 0]), Err(()));
    // Length byte does not match the buffer length.
    let mut buf = vec![2, 18];
    buf.extend_from_slice(&[0; 8]);
    assert_eq!(PackedChat::from_bytes(&buf), Err(()));
    // Unknown tag byte.
    let mut buf = vec![9, 10];
    buf.extend_from_slice(&[0; 8]);
    assert_eq!(PackedChat::from_bytes(&buf), Err(()));
}

#[test]
fn from_hex_rejects_malformed_strings() {
    // Odd length.
    assert_eq!(PackedChat::from_hex("02127"), Err(()));
    // Not hexadecimal.
    assert_eq!(PackedChat::from_hex("zz127b0000000000000055f8060000000000"), Err(()));
    // Valid hexadecimal but not a packed chat.
    assert_eq!(PackedChat::from_hex("0404"), Err(()));
}

#[test]
fn from_hex_accepts_uppercase_digits() {
    let pc = PackedChat {
        ty: PackedType::User,
        id: 123,
        access_hash: Some(456789),
    };
    assert_eq!(
        PackedChat::from_hex("02127B0000000000000055F8060000000000"),
        Ok(pc)
    );
}

#[test]
fn kind_predicates() {
    let user = PackedChat { ty: PackedType::User, id: 1, access_hash: None };
    let bot = PackedChat { ty: PackedType::Bot, id: 2, access_hash: None };
    let chat = PackedChat { ty: PackedType::Chat, id: 3, access_hash: None };
    let mega = PackedChat { ty: PackedType::Megagroup, id: 4, access_hash: None };
    let broadcast = PackedChat { ty: PackedType::Broadcast, id: 5, access_hash: None };
    let giga = PackedChat { ty: PackedType::Gigagroup, id: 6, access_hash: None };

    assert!(user.is_user() && bot.is_user());
    assert!(!chat.is_user() && !mega.is_user());
    assert!(chat.is_chat() && !user.is_chat());
    assert!(mega.is_channel() && broadcast.is_channel() && giga.is_channel());
    assert!(!user.is_channel() && !chat.is_channel());

    assert_eq!(chat.try_to_chat_id(), Some(3));
    assert_eq!(user.try_to_chat_id(), None);
    assert_eq!(mega.try_to_chat_id(), None);
}
