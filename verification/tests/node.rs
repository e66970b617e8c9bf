use valence::protocol::byte_angle::ByteAngle;
use valence::ident::Ident;
use valence::protocol::node::{
    Argument, BrigadierFloat, BrigadierInteger, BrigadierLong, Literal, Node, NodeData, Parser,
};
use valence::protocol::{DecodeError, EncodeError, VarInt};

#[test]
fn byte_angle_is_one_byte() {
    let mut w = Vec::new();
    ByteAngle(200).encode(&mut w);
    assert_eq!(w, vec![200]);
    let mut r: &[u8] = &[64, 1];
    assert_eq!(ByteAngle::decode(&mut r), Ok(ByteAngle(64)));
    assert_eq!(r, &[1]);
    let mut empty: &[u8] = &[];
    assert_eq!(ByteAngle::decode(&mut empty), Err(DecodeError::UnexpectedEof));
}

#[test]
fn integer_bounds_flags_byte_is_zero() {
    let mut w = Vec::new();
    BrigadierInteger { min: Some(-1), max: Some(256) }.encode(&mut w);
    assert_eq!(w, vec![0, 0xff, 0xff, 0xff, 0xff, 0, 0, 1, 0]);
    let mut r: &[u8] = &w;
    assert_eq!(BrigadierInteger::decode(&mut r), Ok(BrigadierInteger { min: None, max: None }));
    assert_eq!(r.len(), 8);
}

#[test]
fn bounds_are_read_as_flagged() {
    // Each flagged bound is read as an optional value: a boolean, then the
    // value if the boolean is true.
    let mut r: &[u8] = &[3, 1, 0, 0, 0, 5, 1, 0, 0, 0, 9];
    assert_eq!(BrigadierInteger::decode(&mut r), Ok(BrigadierInteger { min: Some(5), max: Some(9) }));
    assert!(r.is_empty());
    let mut r: &[u8] = &[3, 0, 0, 4];
    assert_eq!(BrigadierInteger::decode(&mut r), Ok(BrigadierInteger { min: None, max: None }));
    assert_eq!(r, &[4]);
    let mut r: &[u8] = &[2, 1, 0, 0, 0, 0, 0, 0, 0, 7];
    assert_eq!(BrigadierLong::decode(&mut r), Ok(BrigadierLong { min: None, max: Some(7) }));
    let mut r: &[u8] = &[1, 1, 0, 0];
    assert_eq!(BrigadierInteger::decode(&mut r), Err(DecodeError::UnexpectedEof));
    let mut r: &[u8] = &[1, 2];
    assert_eq!(BrigadierLong::decode(&mut r), Err(DecodeError::InvalidBool));
    let mut w = Vec::new();
    BrigadierLong { min: None, max: Some(-2) }.encode(&mut w);
    assert_eq!(w, vec![0, 0xff, 0xff, 0xff, 0xff, 0xff, 0xff, 0xff, 0xfe]);
}

#[test]
fn float_bounds_are_written_as_bits() {
    let mut w = Vec::new();
    let b = BrigadierFloat { min: Some(1.5f32.to_bits()), max: None };
    assert_eq!(b.encode(&mut w), Ok(()));
    assert_eq!(w, vec![0, 0x3f, 0xc0, 0, 0]);
    let mut r: &[u8] = &w;
    assert_eq!(BrigadierFloat::decode(&mut r), Ok(BrigadierFloat { min: None, max: None }));
    assert_eq!(r.len(), 4);
}

#[test]
fn non_finite_float_bounds_are_refused() {
    let mut w = vec![9];
    let b = BrigadierFloat { min: None, max: Some(f32::NAN.to_bits()) };
    assert_eq!(b.encode(&mut w), Err(EncodeError::NonFiniteFloat));
    assert_eq!(w, vec![9, 0]);
    let inf = f32::INFINITY.to_bits().to_be_bytes();
    let mut r: &[u8] = &[1, 1, inf[0], inf[1], inf[2], inf[3]];
    assert_eq!(BrigadierFloat::decode(&mut r), Err(DecodeError::NonFiniteFloat));
    let two = 2.0f32.to_bits().to_be_bytes();
    let mut r: &[u8] = &[2, 1, two[0], two[1], two[2], two[3]];
    assert_eq!(
        BrigadierFloat::decode(&mut r),
        Ok(BrigadierFloat { min: None, max: Some(2.0f32.to_bits()) })
    );
    assert!(r.is_empty());
}

#[test]
fn parsers_are_tagged() {
    let mut w = Vec::new();
    assert_eq!(Parser::BrigadierBool(true).encode(&mut w), Ok(()));
    assert_eq!(w, vec![0, 1]);
    let mut r: &[u8] = &w;
    assert_eq!(Parser::decode(&mut r), Ok(Parser::BrigadierBool(true)));
    assert!(r.is_empty());

    let mut w = Vec::new();
    let p = Parser::BrigadierLong(BrigadierLong { min: None, max: None });
    assert_eq!(p.encode(&mut w), Ok(()));
    assert_eq!(w, vec![3, 0]);
    let mut r: &[u8] = &w;
    assert_eq!(Parser::decode(&mut r), Ok(p));

    let mut r: &[u8] = &[4, 0];
    assert_eq!(Parser::decode(&mut r), Err(DecodeError::InvalidVariant));
    let mut r: &[u8] = &[0, 2];
    assert_eq!(Parser::decode(&mut r), Err(DecodeError::InvalidBool));
    let mut r: &[u8] = &[];
    assert_eq!(Parser::decode(&mut r), Err(DecodeError::UnexpectedEof));
}

#[test]
fn root_node_roundtrip() {
    let n = Node {
        children: vec![VarInt(1), VarInt(300)],
        data: NodeData::Root,
        is_executable: false,
        redirect_node: None,
    };
    let mut w = Vec::new();
    assert_eq!(n.encode(&mut w), Ok(()));
    assert_eq!(w, vec![0, 2, 1, 0xac, 0x02]);
    w.push(7);
    let mut r: &[u8] = &w;
    let d = Node::decode(&mut r).unwrap();
    assert_eq!(d.children, vec![VarInt(1), VarInt(300)]);
    assert!(matches!(d.data, NodeData::Root));
    assert!(!d.is_executable);
    assert_eq!(d.redirect_node, None);
    assert_eq!(r, &[7]);
}

#[test]
fn argument_node_is_written_with_zero_flags() {
    let n = Node {
        children: vec![],
        data: NodeData::Argument(Argument {
            name: "n".to_string(),
            parser: Parser::BrigadierBool(false),
            suggestions_type: Some(Ident::new("a:b".to_string()).unwrap()),
        }),
        is_executable: true,
        redirect_node: Some(VarInt(5)),
    };
    let mut w = Vec::new();
    assert_eq!(n.encode(&mut w), Ok(()));
    assert_eq!(w, vec![0, 0, 5, 1, b'n', 0, 0, 3, b'a', b':', b'b']);
    // The zero flags byte reads back as a root node without a redirect.
    let mut r: &[u8] = &w;
    let d = Node::decode(&mut r).unwrap();
    assert!(matches!(d.data, NodeData::Root));
    assert!(!d.is_executable);
    assert_eq!(d.redirect_node, None);
    assert_eq!(r.len(), 9);
}

#[test]
fn flagged_nodes_are_read_by_their_flags() {
    // Executable (4), redirect (8) read as an optional VarInt, a literal (1).
    let mut r: &[u8] = &[13, 1, 6, 1, 9, 2, b'h', b'i'];
    let d = Node::decode(&mut r).unwrap();
    assert!(d.is_executable);
    assert_eq!(d.redirect_node, Some(VarInt(6)));
    assert_eq!(d.children, vec![VarInt(9)]);
    match d.data {
        NodeData::Literal(Literal { name }) => assert_eq!(name, "hi"),
        _ => panic!("expected a literal"),
    }
    assert!(r.is_empty());
    // An argument (2) with suggestions (16).
    let mut r: &[u8] = &[18, 0, 1, b'x', 0, 0, 1, 3, b'a', b':', b'b'];
    let d = Node::decode(&mut r).unwrap();
    match d.data {
        NodeData::Argument(a) => {
            assert_eq!(a.name, "x");
            assert_eq!(a.parser, Parser::BrigadierBool(false));
            assert_eq!(a.suggestions_type.unwrap().as_str(), "a:b");
        }
        _ => panic!("expected an argument"),
    }
    // Kind 3 names no node.
    let mut r: &[u8] = &[3, 0];
    assert!(matches!(Node::decode(&mut r), Err(DecodeError::InvalidVariant)));
    // A negative child count is refused.
    let mut r: &[u8] = &[0, 0xff, 0xff, 0xff, 0xff, 0x0f];
    assert!(matches!(Node::decode(&mut r), Err(DecodeError::LengthOutOfBounds)));
    // A suggestions identifier must be valid.
    let mut r: &[u8] = &[18, 0, 1, b'x', 0, 0, 1, 2, b'A', b'!'];
    assert!(matches!(Node::decode(&mut r), Err(DecodeError::InvalidIdent)));
}
