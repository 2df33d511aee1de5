use sdaa_ctrl::ctrl_msg::{CtrlMsg, Health, XGbeCfg};
use sdaa_ctrl::model::CodecError;

fn cfg(n: u8) -> XGbeCfg {
    XGbeCfg {
        dst_mac: [0, 0, 0, 0, 0, 0xee - n],
        src_mac: [0, 0, 0, 0, 0, 0xff - n],
        dst_ip: [192, 168, 1, 100 + n],
        src_ip: [192, 168, 1, 101 + n],
        dst_port: 3000 + n as u16,
        src_port: 3001 + n as u16,
    }
}

fn round_trip(m: &CtrlMsg) -> CtrlMsg {
    let bytes = m.encode().expect("well-formed message encodes");
    let back = CtrlMsg::decode(&bytes).expect("its image decodes");
    assert_eq!(format!("{:?}", back), format!("{:?}", m));
    back
}

fn every_variant(payload: Vec<u8>, words: Vec<u32>) -> Vec<CtrlMsg> {
    let n = payload.len() as u32;
    let w = words.len() as u32;
    vec![
        CtrlMsg::InvalidMsg { msg_id: 1, err_code: 2, len: n, description: payload.clone() },
        CtrlMsg::Query { msg_id: 3 },
        CtrlMsg::QueryReply {
            msg_id: 4,
            fm_ver: 0x0102_0304,
            tick_cnt1: 10,
            tick_cnt2: 11,
            trans_state: 0x3,
            locked: 0x3f,
            health: Health::HLHealth {
                nhealth: 7,
                xgbe_state: [1, 2, 3, 4],
                pkt_sent: [u64::MAX, 0x1_0000_0001, 0, 42],
                volt12_inner: 12000,
                volt12_input: 12001,
                vcc1v0: 1000,
                vcc1v8: 1800,
                mgtavtt1v2: 1200,
                mgtavtt1v0: 1001,
                temperatures: [45, 46],
            },
        },
        CtrlMsg::QueryReply {
            msg_id: 5,
            fm_ver: 1,
            tick_cnt1: 2,
            tick_cnt2: 3,
            trans_state: 4,
            locked: 0x2f,
            health: Health::TEHealth { nhealth: w, payload: words.clone() },
        },
        CtrlMsg::Sync { msg_id: 6 },
        CtrlMsg::SyncReply { msg_id: 7 },
        CtrlMsg::XGbeCfg { msg_id: 0x1122_3344, cfg: [cfg(0), cfg(1), cfg(2), cfg(3)] },
        CtrlMsg::XgbeCfgReply { msg_id: 8 },
        CtrlMsg::I2CScan { msg_id: 9 },
        CtrlMsg::I2CScanReply { msg_id: 10, ndev: n, payload: payload.clone() },
        CtrlMsg::I2CWrite { msg_id: 11, dev_addr: 0x50, len: n, payload: payload.clone() },
        CtrlMsg::I2CWriteReply { msg_id: 12, err_code: 0 },
        CtrlMsg::I2CWriteReg {
            msg_id: 13,
            dev_addr: 0x50,
            reg_addr: 0x10,
            len: n,
            payload: payload.clone(),
        },
        CtrlMsg::I2CWriteRegReply { msg_id: 14, err_code: 1 },
        CtrlMsg::I2CRead { msg_id: 15, dev_addr: 0x51, nbytes: 4 },
        CtrlMsg::I2CReadReply { msg_id: 16, err_code: 0, len: n, payload: payload.clone() },
        CtrlMsg::I2CReadReg { msg_id: 17, dev_addr: 0x52, reg_addr: 3, nbytes: 2 },
        CtrlMsg::I2CReadRegReply { msg_id: 18, err_code: 0, len: n, payload: payload.clone() },
        CtrlMsg::StreamStart { msg_id: 19 },
        CtrlMsg::StreamStartReply { msg_id: 20 },
        CtrlMsg::StreamStop { msg_id: 21 },
        CtrlMsg::StreamStopReply { msg_id: 22 },
        CtrlMsg::VGACtrl { msg_id: 23, nvga: w, gains: words.clone() },
        CtrlMsg::VGACtrlReply { msg_id: 24, err_code: 0 },
        CtrlMsg::PwrCtrl { msg_id: 25, op_code: 1 },
        CtrlMsg::PwrCtrlReply { msg_id: 26 },
        CtrlMsg::Init { msg_id: 27, reserved_zeros: 0 },
        CtrlMsg::InitReply { msg_id: 28 },
    ]
}

#[test]
fn round_trip_every_variant_empty_payloads() {
    for m in every_variant(vec![], vec![]) {
        round_trip(&m);
    }
}

#[test]
fn round_trip_every_variant_one_element() {
    for m in every_variant(vec![0xab], vec![0xdead_beef]) {
        round_trip(&m);
    }
}

#[test]
fn round_trip_every_variant_large_payloads() {
    let bytes: Vec<u8> = (0..8000u32).map(|i| (i % 251) as u8).collect();
    let words: Vec<u32> = (0..2000u32).map(|i| i.wrapping_mul(0x9e37_79b9)).collect();
    for m in every_variant(bytes, words) {
        round_trip(&m);
    }
}

#[test]
fn decode_ignores_trailing_bytes() {
    let m = CtrlMsg::I2CWrite { msg_id: 5, dev_addr: 1, len: 2, payload: vec![9, 8] };
    let mut bytes = m.encode().unwrap();
    bytes.extend_from_slice(&[0u8; 100]);
    let back = CtrlMsg::decode(&bytes).unwrap();
    assert_eq!(format!("{:?}", back), format!("{:?}", m));
}

#[test]
fn query_image_is_little_endian() {
    let m = CtrlMsg::Query { msg_id: 7 };
    assert_eq!(m.encode().unwrap(), vec![1, 0, 0, 0, 7, 0, 0, 0]);
}

#[test]
fn invalid_msg_image() {
    let m = CtrlMsg::InvalidMsg { msg_id: 0x0102_0304, err_code: 5, len: 2, description: vec![b'n', b'o'] };
    assert_eq!(
        m.encode().unwrap(),
        vec![0xff, 0xff, 0xff, 0xff, 4, 3, 2, 1, 5, 0, 0, 0, 2, 0, 0, 0, b'n', b'o']
    );
}

#[test]
fn port_record_layout_has_zero_padding() {
    let m = CtrlMsg::XGbeCfg { msg_id: 0x1122_3344, cfg: [cfg(0), cfg(0), cfg(0), cfg(0)] };
    let bytes = m.encode().unwrap();
    assert_eq!(bytes.len(), 8 + 4 * 32);
    assert_eq!(&bytes[0..8], &[3, 0, 0, 0, 0x44, 0x33, 0x22, 0x11]);
    let rec = &bytes[8..40];
    assert_eq!(&rec[0..8], &[0, 0, 0, 0, 0, 0xee, 0, 0]);
    assert_eq!(&rec[8..16], &[0, 0, 0, 0, 0, 0xff, 0, 0]);
    assert_eq!(&rec[16..24], &[192, 168, 1, 100, 192, 168, 1, 101]);
    assert_eq!(&rec[24..32], &[0xb8, 0x0b, 0, 0, 0xb9, 0x0b, 0, 0]);
}

#[test]
fn padding_content_is_ignored_on_decode() {
    let m = CtrlMsg::XGbeCfg { msg_id: 1, cfg: [cfg(0), cfg(1), cfg(2), cfg(3)] };
    let mut bytes = m.encode().unwrap();
    bytes[8 + 6] = 0x55;
    bytes[8 + 30] = 0x66;
    let back = CtrlMsg::decode(&bytes).unwrap();
    assert_eq!(format!("{:?}", back), format!("{:?}", m));
}

#[test]
fn health_u64_counters_are_low_word_first() {
    let m = CtrlMsg::QueryReply {
        msg_id: 0,
        fm_ver: 0,
        tick_cnt1: 0,
        tick_cnt2: 0,
        trans_state: 0,
        locked: 0,
        health: Health::HLHealth {
            nhealth: 0,
            xgbe_state: [0; 4],
            pkt_sent: [0x0000_0002_0000_0001, 0, 0, 0],
            volt12_inner: 0,
            volt12_input: 0,
            vcc1v0: 0,
            vcc1v8: 0,
            mgtavtt1v2: 0,
            mgtavtt1v0: 0,
            temperatures: [0; 2],
        },
    };
    let bytes = m.encode().unwrap();
    assert_eq!(bytes.len(), 4 * (7 + 22));
    assert_eq!(&bytes[28..32], &[0x68, 0x6c, 0x76, 0x31]);
    assert_eq!(&bytes[52..60], &[1, 0, 0, 0, 2, 0, 0, 0]);
}

#[test]
fn empty_and_short_buffers_are_truncated() {
    assert_eq!(CtrlMsg::decode(&[]).unwrap_err(), CodecError::Truncated);
    assert_eq!(CtrlMsg::decode(&[1, 0, 0]).unwrap_err(), CodecError::Truncated);
    assert_eq!(CtrlMsg::decode(&[1, 0, 0, 0, 7, 0]).unwrap_err(), CodecError::Truncated);
}

#[test]
fn unknown_magic_is_reported() {
    assert_eq!(CtrlMsg::decode(&[9, 9, 9, 9, 0, 0, 0, 0]).unwrap_err(), CodecError::UnknownMagic);
    assert_eq!(CtrlMsg::decode(&[0x99, 0, 0, 0]).unwrap_err(), CodecError::UnknownMagic);
}

#[test]
fn unknown_telemetry_magic_is_reported() {
    let mut bytes = vec![1, 0, 0, 0xff];
    bytes.extend_from_slice(&[0u8; 24]);
    bytes.extend_from_slice(&[1, 2, 3, 4]);
    bytes.extend_from_slice(&[0u8; 200]);
    assert_eq!(CtrlMsg::decode(&bytes).unwrap_err(), CodecError::UnknownMagic);
}

#[test]
fn huge_declared_length_is_truncated_not_read() {
    // I2CReadReply claiming u32::MAX payload bytes, carrying four.
    let bytes = vec![
        0x04, 0x03, 0x00, 0xff, 1, 0, 0, 0, 0, 0, 0, 0, 0xff, 0xff, 0xff, 0xff, 1, 2, 3, 4,
    ];
    assert_eq!(CtrlMsg::decode(&bytes).unwrap_err(), CodecError::Truncated);
    // VGACtrl claiming u32::MAX gains.
    let bytes = vec![6, 0, 0, 0, 1, 0, 0, 0, 0xff, 0xff, 0xff, 0xff, 1, 0, 0, 0];
    assert_eq!(CtrlMsg::decode(&bytes).unwrap_err(), CodecError::Truncated);
}

#[test]
fn every_proper_prefix_is_truncated() {
    for m in every_variant(vec![1, 2, 3], vec![4, 5]) {
        let bytes = m.encode().unwrap();
        for k in 0..bytes.len() {
            assert_eq!(CtrlMsg::decode(&bytes[..k]).unwrap_err(), CodecError::Truncated);
        }
    }
}

#[test]
fn count_mismatch_is_refused_by_encode() {
    let m = CtrlMsg::I2CWrite { msg_id: 1, dev_addr: 2, len: 3, payload: vec![1] };
    assert_eq!(m.encode().unwrap_err(), CodecError::LengthMismatch);
    let m = CtrlMsg::VGACtrl { msg_id: 1, nvga: 0, gains: vec![1, 2] };
    assert_eq!(m.encode().unwrap_err(), CodecError::LengthMismatch);
    assert!(!m.is_well_formed());
}

#[test]
fn msg_id_set_and_get() {
    for mut m in every_variant(vec![1], vec![2]) {
        m.set_msg_id(0xabcd_0123);
        assert_eq!(m.get_msg_id(), 0xabcd_0123);
        let bytes = m.encode().unwrap();
        assert_eq!(&bytes[4..8], &[0x23, 0x01, 0xcd, 0xab]);
    }
}

#[test]
fn is_invalid_only_for_rejections() {
    for m in every_variant(vec![], vec![]) {
        assert_eq!(m.is_invalid(), matches!(m, CtrlMsg::InvalidMsg { .. }));
    }
}
