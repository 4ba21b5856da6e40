//! Tests of the service core: the fixed handler, the wire codec, and
//! byte-level dispatch.

use rust_grpc::hero::{Hero, HeroById};
use rust_grpc::service::{DispatchError, HeroService};
use rust_grpc::wire::{decode_hero, decode_hero_by_id, encode_hero, encode_hero_by_id};

const FIND_ONE: &str = "/hero.HeroesService/FindOne";

#[test]
fn find_one_is_invariant_under_the_input() {
    let svc = HeroService::default();
    for id in [0, 1, -1, 42, i32::MIN, i32::MAX] {
        let hero = svc.find_one(&HeroById { id });
        assert_eq!(hero.id, 1);
        assert_eq!(hero.name, "scd");
    }
}

#[test]
fn hero_round_trip() {
    let hero = Hero {
        id: 7,
        name: "X".to_string(),
    };
    let bytes = encode_hero(&hero);
    let back = decode_hero(&bytes).unwrap();
    assert_eq!(back, hero);
}

#[test]
fn hero_round_trip_defaults_encode_to_nothing() {
    let hero = Hero {
        id: 0,
        name: String::new(),
    };
    let bytes = encode_hero(&hero);
    assert_eq!(bytes, Vec::<u8>::new());
    assert_eq!(decode_hero(&bytes).unwrap(), hero);
}

#[test]
fn hero_round_trip_multibyte_name() {
    let hero = Hero {
        id: -5,
        name: "h\u{e9}ros \u{2603}".to_string(),
    };
    let back = decode_hero(&encode_hero(&hero)).unwrap();
    assert_eq!(back, hero);
}

#[test]
fn hero_by_id_round_trip_across_the_id_range() {
    for id in [0, 1, -1, 127, 128, 300, i32::MIN, i32::MAX] {
        let bytes = encode_hero_by_id(&HeroById { id });
        let back = decode_hero_by_id(&bytes).unwrap();
        assert_eq!(back.id, id);
    }
}

#[test]
fn encode_hero_exact_bytes() {
    let hero = Hero {
        id: 1,
        name: "scd".to_string(),
    };
    assert_eq!(
        encode_hero(&hero),
        vec![0x08, 0x01, 0x12, 0x03, b's', b'c', b'd']
    );
}

#[test]
fn encode_hero_by_id_exact_bytes() {
    assert_eq!(encode_hero_by_id(&HeroById { id: 0 }), Vec::<u8>::new());
    assert_eq!(encode_hero_by_id(&HeroById { id: 42 }), vec![0x08, 42]);
    assert_eq!(encode_hero_by_id(&HeroById { id: 300 }), vec![0x08, 0xAC, 0x02]);
    // a negative id travels as its 64-bit two's complement: ten varint bytes
    assert_eq!(
        encode_hero_by_id(&HeroById { id: -1 }),
        vec![0x08, 0xFF, 0xFF, 0xFF, 0xFF, 0xFF, 0xFF, 0xFF, 0xFF, 0xFF, 0x01]
    );
}

#[test]
fn decode_rejects_malformed_bytes() {
    // truncated varint after the id tag
    assert_eq!(decode_hero_by_id(&[0x08]), None);
    // wrong field tag
    assert_eq!(decode_hero_by_id(&[0x10, 0x01]), None);
    // trailing bytes after the id field
    assert_eq!(decode_hero_by_id(&[0x08, 0x01, 0x01]), None);
    // name length running past the end of the buffer
    assert_eq!(decode_hero(&[0x12, 0x05, b'a']), None);
    // name bytes that are not valid UTF-8
    assert_eq!(decode_hero(&[0x12, 0x01, 0xFF]), None);
}

#[test]
fn decode_rejects_varint_overflow() {
    // eleven bytes encode at least 2^70: too wide for a 64-bit value
    let mut bytes = vec![0x08];
    bytes.extend([0xFF; 10]);
    bytes.push(0x7F);
    assert_eq!(decode_hero_by_id(&bytes), None);
}

#[test]
fn decode_accepts_non_minimal_varint() {
    let back = decode_hero_by_id(&[0x08, 0x81, 0x00]).unwrap();
    assert_eq!(back.id, 1);
}

#[test]
fn dispatch_end_to_end() {
    let svc = HeroService::default();
    let request = encode_hero_by_id(&HeroById { id: 42 });
    let response = svc.dispatch(FIND_ONE, &request).unwrap();
    let hero = decode_hero(&response).unwrap();
    assert_eq!(hero.id, 1);
    assert_eq!(hero.name, "scd");
}

#[test]
fn dispatch_serves_every_id() {
    let svc = HeroService::default();
    for id in [0, -7, i32::MIN] {
        let request = encode_hero_by_id(&HeroById { id });
        let response = svc.dispatch(FIND_ONE, &request).unwrap();
        assert_eq!(
            response,
            vec![0x08, 0x01, 0x12, 0x03, b's', b'c', b'd']
        );
    }
}

#[test]
fn dispatch_refuses_unknown_method() {
    let svc = HeroService::default();
    let request = encode_hero_by_id(&HeroById { id: 1 });
    assert_eq!(
        svc.dispatch("/hero.HeroesService/FindTwo", &request),
        Err(DispatchError::UnknownMethod)
    );
}

#[test]
fn dispatch_refuses_malformed_body() {
    let svc = HeroService::default();
    assert_eq!(
        svc.dispatch(FIND_ONE, &[0xFF, 0xFF]),
        Err(DispatchError::InvalidRequest)
    );
}

#[test]
fn dispatch_accepts_empty_body_as_id_zero() {
    let svc = HeroService::default();
    let response = svc.dispatch(FIND_ONE, &[]).unwrap();
    let hero = decode_hero(&response).unwrap();
    assert_eq!(hero, Hero { id: 1, name: "scd".to_string() });
}
