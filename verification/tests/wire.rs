use bevyforge::frame::{decode_len, encode_len, frame_payload, unframe, FrameError, MAX_MESSAGE_BYTES};
use bevyforge::ipc::{
    addable_components, all_mesh_primitives, all_tonemappings, AnimTrack, ComponentKind, EntityKind,
    LogLevel, MeshPrimitive, TonemappingKind, DEFAULT_PORT, NO_ENTITY, PROTOCOL_VERSION,
};

#[test]
fn frame_roundtrip() {
    let payload = vec![1u8, 2, 3, 250];
    let framed = frame_payload(&payload).unwrap();
    assert_eq!(framed, vec![0, 0, 0, 4, 1, 2, 3, 250]);
    let mut stream = framed.clone();
    stream.extend_from_slice(&[9, 9]);
    let (back, used) = unframe(&stream).unwrap();
    assert_eq!(back, payload);
    assert_eq!(used, 8);
}

#[test]
fn frame_header_is_big_endian() {
    assert_eq!(encode_len(0x0102_0304), [1, 2, 3, 4]);
    assert_eq!(decode_len([0, 0, 1, 0]), 256);
    assert_eq!(decode_len(encode_len(48470)), 48470);
}

#[test]
fn frame_errors() {
    assert_eq!(unframe(&[0, 0, 0]), Err(FrameError::Incomplete));
    assert_eq!(unframe(&[0, 0, 0, 5, 1, 2]), Err(FrameError::Incomplete));
    assert_eq!(unframe(&[0xff, 0, 0, 0]), Err(FrameError::TooLarge(0xff00_0000)));
    let big = vec![0u8; MAX_MESSAGE_BYTES as usize + 1];
    assert_eq!(frame_payload(&big), Err(FrameError::TooLarge(MAX_MESSAGE_BYTES as u64 + 1)));
    assert!(frame_payload(&vec![0u8; 0]).is_ok());
}

#[test]
fn labels() {
    assert_eq!(MeshPrimitive::Icosphere.label(), "Icosphere");
    assert_eq!(EntityKind::Mesh(MeshPrimitive::Torus).label(), "Torus");
    assert_eq!(EntityKind::Empty.label(), "Empty Entity");
    assert_eq!(EntityKind::PlayerPrefab.label(), "Player Prefab");
    assert_eq!(ComponentKind::DirectionalLight.label(), "Directional Light");
    assert_eq!(ComponentKind::CharacterController.label(), "CharacterController");
    assert_eq!(LogLevel::Error.tag(), "ERROR");
    assert_eq!(AnimTrack::Translation.label(), "Position");
    assert_eq!(TonemappingKind::Linear.label(), "None (Linear)");
    assert_eq!(TonemappingKind::AcesFitted.label(), "ACES Fitted");
    assert_eq!(all_tonemappings().len(), 6);
    assert_eq!(all_mesh_primitives()[7], MeshPrimitive::Torus);
    assert_eq!(addable_components()[0], ComponentKind::Rotator);
    assert_eq!(addable_components().len(), 8);
    assert_eq!(PROTOCOL_VERSION, 3);
    assert_eq!(DEFAULT_PORT, 48470);
    assert_eq!(NO_ENTITY, u64::MAX);
}
