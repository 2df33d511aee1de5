//! The mathematical model of control messages, their wire image and the
//! parser that reads a model back from bytes.
use vstd::prelude::*;
use crate::wire::{
    hi32, join64, le16, le32, le32s, lemma_le32s_add, lemma_join64, lemma_le32s_len, lemma_u16_at, lemma_words, lo32, u16_at,
    word,
};

verus! {

pub const MAGIC_INVALID: u32 = 0xffff_ffff;
pub const MAGIC_QUERY: u32 = 0x01;
pub const MAGIC_QUERY_REPLY: u32 = 0xff00_0001;
pub const MAGIC_SYNC: u32 = 0x02;
pub const MAGIC_SYNC_REPLY: u32 = 0xff00_0002;
pub const MAGIC_XGBE_CFG: u32 = 0x03;
pub const MAGIC_XGBE_CFG_REPLY: u32 = 0xff00_0003;
pub const MAGIC_I2C_SCAN: u32 = 0x04;
pub const MAGIC_I2C_SCAN_REPLY: u32 = 0xff00_0004;
pub const MAGIC_I2C_WRITE: u32 = 0x0104;
pub const MAGIC_I2C_WRITE_REPLY: u32 = 0xff00_0104;
pub const MAGIC_I2C_WRITE_REG: u32 = 0x0204;
pub const MAGIC_I2C_WRITE_REG_REPLY: u32 = 0xff00_0204;
pub const MAGIC_I2C_READ: u32 = 0x0304;
pub const MAGIC_I2C_READ_REPLY: u32 = 0xff00_0304;
pub const MAGIC_I2C_READ_REG: u32 = 0x0404;
pub const MAGIC_I2C_READ_REG_REPLY: u32 = 0xff00_0404;
pub const MAGIC_STREAM_START: u32 = 0x0105;
pub const MAGIC_STREAM_START_REPLY: u32 = 0xff00_0105;
pub const MAGIC_STREAM_STOP: u32 = 0x0205;
pub const MAGIC_STREAM_STOP_REPLY: u32 = 0xff00_0205;
pub const MAGIC_VGA_CTRL: u32 = 0x06;
pub const MAGIC_VGA_CTRL_REPLY: u32 = 0xff00_0006;
pub const MAGIC_PWR_CTRL: u32 = 0x07;
pub const MAGIC_PWR_CTRL_REPLY: u32 = 0xff00_0007;
pub const MAGIC_INIT: u32 = 0x08;
pub const MAGIC_INIT_REPLY: u32 = 0xff00_0008;

pub const MAGIC_HL_HEALTH: u32 = 0x3176_6c68;
pub const MAGIC_TE_HEALTH: u32 = 0x7856_3412;

/// Size in bytes of one data-path port record.
pub const CFG_RECORD_LEN: usize = 32;

/// Why a buffer could not be read as a message, or a message could not be written.
#[derive(Clone, Copy, Debug, PartialEq, Eq, Structural)]
pub enum CodecError {
    /// The leading word (or the nested telemetry word) names no known variant.
    UnknownMagic,
    /// The buffer ends before the frame that its header announces.
    Truncated,
    /// A count field differs from the length of the sequence it counts.
    LengthMismatch,
}

/// Model of one port record: addresses as byte sequences, ports as numbers.
pub struct CfgModel {
    pub dst_mac: Seq<u8>,
    pub src_mac: Seq<u8>,
    pub dst_ip: Seq<u8>,
    pub src_ip: Seq<u8>,
    pub dst_port: u16,
    pub src_port: u16,
}

/// Model of the telemetry record carried by a status reply.
pub enum HealthModel {
    HLHealth {
        nhealth: u32,
        xgbe_state: Seq<u32>,
        pkt_sent: Seq<u64>,
        volt12_inner: u32,
        volt12_input: u32,
        vcc1v0: u32,
        vcc1v8: u32,
        mgtavtt1v2: u32,
        mgtavtt1v0: u32,
        temperatures: Seq<u32>,
    },
    TEHealth { nhealth: u32, payload: Seq<u32> },
}

/// Model of a control message.
pub enum Msg {
    InvalidMsg { msg_id: u32, err_code: u32, len: u32, description: Seq<u8> },
    Query { msg_id: u32 },
    QueryReply {
        msg_id: u32,
        fm_ver: u32,
        tick_cnt1: u32,
        tick_cnt2: u32,
        trans_state: u32,
        locked: u32,
        health: HealthModel,
    },
    Sync { msg_id: u32 },
    SyncReply { msg_id: u32 },
    XGbeCfg { msg_id: u32, cfg: Seq<CfgModel> },
    XgbeCfgReply { msg_id: u32 },
    I2CScan { msg_id: u32 },
    I2CScanReply { msg_id: u32, ndev: u32, payload: Seq<u8> },
    I2CWrite { msg_id: u32, dev_addr: u32, len: u32, payload: Seq<u8> },
    I2CWriteReply { msg_id: u32, err_code: u32 },
    I2CWriteReg { msg_id: u32, dev_addr: u32, reg_addr: u32, len: u32, payload: Seq<u8> },
    I2CWriteRegReply { msg_id: u32, err_code: u32 },
    I2CRead { msg_id: u32, dev_addr: u32, nbytes: u32 },
    I2CReadReply { msg_id: u32, err_code: u32, len: u32, payload: Seq<u8> },
    I2CReadReg { msg_id: u32, dev_addr: u32, reg_addr: u32, nbytes: u32 },
    I2CReadRegReply { msg_id: u32, err_code: u32, len: u32, payload: Seq<u8> },
    StreamStart { msg_id: u32 },
    StreamStartReply { msg_id: u32 },
    StreamStop { msg_id: u32 },
    StreamStopReply { msg_id: u32 },
    VGACtrl { msg_id: u32, nvga: u32, gains: Seq<u32> },
    VGACtrlReply { msg_id: u32, err_code: u32 },
    PwrCtrl { msg_id: u32, op_code: u32 },
    PwrCtrlReply { msg_id: u32 },
    Init { msg_id: u32, reserved_zeros: u32 },
    InitReply { msg_id: u32 },
}

impl CfgModel {
    pub open spec fn wf(self) -> bool {
        &&& self.dst_mac.len() == 6
        &&& self.src_mac.len() == 6
        &&& self.dst_ip.len() == 4
        &&& self.src_ip.len() == 4
    }
}

impl HealthModel {
    /// Fixed arrays have their lengths and the count field counts the payload.
    pub open spec fn wf(self) -> bool {
        match self {
            HealthModel::HLHealth { xgbe_state, pkt_sent, temperatures, .. } => {
                &&& xgbe_state.len() == 4
                &&& pkt_sent.len() == 4
                &&& temperatures.len() == 2
            },
            HealthModel::TEHealth { nhealth, payload } => nhealth == payload.len(),
        }
    }
}

impl Msg {
    /// Every count field equals the length of the sequence it counts, and
    /// every fixed array has its length.
    pub open spec fn wf(self) -> bool {
        match self {
            Msg::InvalidMsg { len, description, .. } => len == description.len(),
            Msg::QueryReply { health, .. } => health.wf(),
            Msg::XGbeCfg { cfg, .. } => cfg.len() == 4 && forall|i: int|
                0 <= i < 4 ==> (#[trigger] cfg[i]).wf(),
            Msg::I2CScanReply { ndev, payload, .. } => ndev == payload.len(),
            Msg::I2CWrite { len, payload, .. } => len == payload.len(),
            Msg::I2CWriteReg { len, payload, .. } => len == payload.len(),
            Msg::I2CReadReply { len, payload, .. } => len == payload.len(),
            Msg::I2CReadRegReply { len, payload, .. } => len == payload.len(),
            Msg::VGACtrl { nvga, gains, .. } => nvga == gains.len(),
            _ => true,
        }
    }

    /// The variant's magic code.
    pub open spec fn magic(self) -> u32 {
        match self {
            Msg::InvalidMsg { .. } => MAGIC_INVALID,
            Msg::Query { .. } => MAGIC_QUERY,
            Msg::QueryReply { .. } => MAGIC_QUERY_REPLY,
            Msg::Sync { .. } => MAGIC_SYNC,
            Msg::SyncReply { .. } => MAGIC_SYNC_REPLY,
            Msg::XGbeCfg { .. } => MAGIC_XGBE_CFG,
            Msg::XgbeCfgReply { .. } => MAGIC_XGBE_CFG_REPLY,
            Msg::I2CScan { .. } => MAGIC_I2C_SCAN,
            Msg::I2CScanReply { .. } => MAGIC_I2C_SCAN_REPLY,
            Msg::I2CWrite { .. } => MAGIC_I2C_WRITE,
            Msg::I2CWriteReply { .. } => MAGIC_I2C_WRITE_REPLY,
            Msg::I2CWriteReg { .. } => MAGIC_I2C_WRITE_REG,
            Msg::I2CWriteRegReply { .. } => MAGIC_I2C_WRITE_REG_REPLY,
            Msg::I2CRead { .. } => MAGIC_I2C_READ,
            Msg::I2CReadReply { .. } => MAGIC_I2C_READ_REPLY,
            Msg::I2CReadReg { .. } => MAGIC_I2C_READ_REG,
            Msg::I2CReadRegReply { .. } => MAGIC_I2C_READ_REG_REPLY,
            Msg::StreamStart { .. } => MAGIC_STREAM_START,
            Msg::StreamStartReply { .. } => MAGIC_STREAM_START_REPLY,
            Msg::StreamStop { .. } => MAGIC_STREAM_STOP,
            Msg::StreamStopReply { .. } => MAGIC_STREAM_STOP_REPLY,
            Msg::VGACtrl { .. } => MAGIC_VGA_CTRL,
            Msg::VGACtrlReply { .. } => MAGIC_VGA_CTRL_REPLY,
            Msg::PwrCtrl { .. } => MAGIC_PWR_CTRL,
            Msg::PwrCtrlReply { .. } => MAGIC_PWR_CTRL_REPLY,
            Msg::Init { .. } => MAGIC_INIT,
            Msg::InitReply { .. } => MAGIC_INIT_REPLY,
        }
    }

    /// The correlation token.
    pub open spec fn msg_id(self) -> u32 {
        match self {
            Msg::InvalidMsg { msg_id, .. } => msg_id,
            Msg::Query { msg_id } => msg_id,
            Msg::QueryReply { msg_id, .. } => msg_id,
            Msg::Sync { msg_id } => msg_id,
            Msg::SyncReply { msg_id } => msg_id,
            Msg::XGbeCfg { msg_id, .. } => msg_id,
            Msg::XgbeCfgReply { msg_id } => msg_id,
            Msg::I2CScan { msg_id } => msg_id,
            Msg::I2CScanReply { msg_id, .. } => msg_id,
            Msg::I2CWrite { msg_id, .. } => msg_id,
            Msg::I2CWriteReply { msg_id, .. } => msg_id,
            Msg::I2CWriteReg { msg_id, .. } => msg_id,
            Msg::I2CWriteRegReply { msg_id, .. } => msg_id,
            Msg::I2CRead { msg_id, .. } => msg_id,
            Msg::I2CReadReply { msg_id, .. } => msg_id,
            Msg::I2CReadReg { msg_id, .. } => msg_id,
            Msg::I2CReadRegReply { msg_id, .. } => msg_id,
            Msg::StreamStart { msg_id } => msg_id,
            Msg::StreamStartReply { msg_id } => msg_id,
            Msg::StreamStop { msg_id } => msg_id,
            Msg::StreamStopReply { msg_id } => msg_id,
            Msg::VGACtrl { msg_id, .. } => msg_id,
            Msg::VGACtrlReply { msg_id, .. } => msg_id,
            Msg::PwrCtrl { msg_id, .. } => msg_id,
            Msg::PwrCtrlReply { msg_id } => msg_id,
            Msg::Init { msg_id, .. } => msg_id,
            Msg::InitReply { msg_id } => msg_id,
        }
    }

    /// The same message with its correlation token replaced by `id`.
    pub open spec fn with_msg_id(self, id: u32) -> Msg {
        match self {
            Msg::InvalidMsg { err_code, len, description, .. } => Msg::InvalidMsg {
                msg_id: id,
                err_code,
                len,
                description,
            },
            Msg::Query { .. } => Msg::Query { msg_id: id },
            Msg::QueryReply { fm_ver, tick_cnt1, tick_cnt2, trans_state, locked, health, .. } =>
                Msg::QueryReply {
                msg_id: id,
                fm_ver,
                tick_cnt1,
                tick_cnt2,
                trans_state,
                locked,
                health,
            },
            Msg::Sync { .. } => Msg::Sync { msg_id: id },
            Msg::SyncReply { .. } => Msg::SyncReply { msg_id: id },
            Msg::XGbeCfg { cfg, .. } => Msg::XGbeCfg { msg_id: id, cfg },
            Msg::XgbeCfgReply { .. } => Msg::XgbeCfgReply { msg_id: id },
            Msg::I2CScan { .. } => Msg::I2CScan { msg_id: id },
            Msg::I2CScanReply { ndev, payload, .. } => Msg::I2CScanReply {
                msg_id: id,
                ndev,
                payload,
            },
            Msg::I2CWrite { dev_addr, len, payload, .. } => Msg::I2CWrite {
                msg_id: id,
                dev_addr,
                len,
                payload,
            },
            Msg::I2CWriteReply { err_code, .. } => Msg::I2CWriteReply { msg_id: id, err_code },
            Msg::I2CWriteReg { dev_addr, reg_addr, len, payload, .. } => Msg::I2CWriteReg {
                msg_id: id,
                dev_addr,
                reg_addr,
                len,
                payload,
            },
            Msg::I2CWriteRegReply { err_code, .. } => Msg::I2CWriteRegReply {
                msg_id: id,
                err_code,
            },
            Msg::I2CRead { dev_addr, nbytes, .. } => Msg::I2CRead { msg_id: id, dev_addr, nbytes },
            Msg::I2CReadReply { err_code, len, payload, .. } => Msg::I2CReadReply {
                msg_id: id,
                err_code,
                len,
                payload,
            },
            Msg::I2CReadReg { dev_addr, reg_addr, nbytes, .. } => Msg::I2CReadReg {
                msg_id: id,
                dev_addr,
                reg_addr,
                nbytes,
            },
            Msg::I2CReadRegReply { err_code, len, payload, .. } => Msg::I2CReadRegReply {
                msg_id: id,
                err_code,
                len,
                payload,
            },
            Msg::StreamStart { .. } => Msg::StreamStart { msg_id: id },
            Msg::StreamStartReply { .. } => Msg::StreamStartReply { msg_id: id },
            Msg::StreamStop { .. } => Msg::StreamStop { msg_id: id },
            Msg::StreamStopReply { .. } => Msg::StreamStopReply { msg_id: id },
            Msg::VGACtrl { nvga, gains, .. } => Msg::VGACtrl { msg_id: id, nvga, gains },
            Msg::VGACtrlReply { err_code, .. } => Msg::VGACtrlReply { msg_id: id, err_code },
            Msg::PwrCtrl { op_code, .. } => Msg::PwrCtrl { msg_id: id, op_code },
            Msg::PwrCtrlReply { .. } => Msg::PwrCtrlReply { msg_id: id },
            Msg::Init { reserved_zeros, .. } => Msg::Init { msg_id: id, reserved_zeros },
            Msg::InitReply { .. } => Msg::InitReply { msg_id: id },
        }
    }
}

/// The words of a telemetry record: its magic, then its fields in order,
/// each `u64` as its low word followed by its high word.
pub open spec fn health_words(h: HealthModel) -> Seq<u32> {
    match h {
        HealthModel::HLHealth {
            nhealth,
            xgbe_state: x,
            pkt_sent: p,
            volt12_inner,
            volt12_input,
            vcc1v0,
            vcc1v8,
            mgtavtt1v2,
            mgtavtt1v0,
            temperatures: t,
        } => seq![MAGIC_HL_HEALTH, nhealth, x[0], x[1], x[2], x[3]] + seq![
            lo32(p[0]),
            hi32(p[0]),
            lo32(p[1]),
            hi32(p[1]),
            lo32(p[2]),
            hi32(p[2]),
            lo32(p[3]),
            hi32(p[3]),
        ] + seq![volt12_inner, volt12_input, vcc1v0, vcc1v8, mgtavtt1v2, mgtavtt1v0, t[0], t[1]],
        HealthModel::TEHealth { nhealth, payload } => seq![MAGIC_TE_HEALTH, nhealth] + payload,
    }
}

/// The word-aligned part of a message's wire image: the magic, the scalar
/// fields in declaration order, and any sequence of words.
pub open spec fn words(m: Msg) -> Seq<u32> {
    match m {
        Msg::InvalidMsg { msg_id, err_code, len, .. } => seq![MAGIC_INVALID, msg_id, err_code, len],
        Msg::Query { msg_id } => seq![MAGIC_QUERY, msg_id],
        Msg::QueryReply { msg_id, fm_ver, tick_cnt1, tick_cnt2, trans_state, locked, health } =>
            seq![
            MAGIC_QUERY_REPLY,
            msg_id,
            fm_ver,
            tick_cnt1,
            tick_cnt2,
            trans_state,
            locked,
        ] + health_words(health),
        Msg::Sync { msg_id } => seq![MAGIC_SYNC, msg_id],
        Msg::SyncReply { msg_id } => seq![MAGIC_SYNC_REPLY, msg_id],
        Msg::XGbeCfg { msg_id, .. } => seq![MAGIC_XGBE_CFG, msg_id],
        Msg::XgbeCfgReply { msg_id } => seq![MAGIC_XGBE_CFG_REPLY, msg_id],
        Msg::I2CScan { msg_id } => seq![MAGIC_I2C_SCAN, msg_id],
        Msg::I2CScanReply { msg_id, ndev, .. } => seq![MAGIC_I2C_SCAN_REPLY, msg_id, ndev],
        Msg::I2CWrite { msg_id, dev_addr, len, .. } => seq![
            MAGIC_I2C_WRITE,
            msg_id,
            dev_addr,
            len,
        ],
        Msg::I2CWriteReply { msg_id, err_code } => seq![MAGIC_I2C_WRITE_REPLY, msg_id, err_code],
        Msg::I2CWriteReg { msg_id, dev_addr, reg_addr, len, .. } => seq![
            MAGIC_I2C_WRITE_REG,
            msg_id,
            dev_addr,
            reg_addr,
            len,
        ],
        Msg::I2CWriteRegReply { msg_id, err_code } => seq![
            MAGIC_I2C_WRITE_REG_REPLY,
            msg_id,
            err_code,
        ],
        Msg::I2CRead { msg_id, dev_addr, nbytes } => seq![
            MAGIC_I2C_READ,
            msg_id,
            dev_addr,
            nbytes,
        ],
        Msg::I2CReadReply { msg_id, err_code, len, .. } => seq![
            MAGIC_I2C_READ_REPLY,
            msg_id,
            err_code,
            len,
        ],
        Msg::I2CReadReg { msg_id, dev_addr, reg_addr, nbytes } => seq![
            MAGIC_I2C_READ_REG,
            msg_id,
            dev_addr,
            reg_addr,
            nbytes,
        ],
        Msg::I2CReadRegReply { msg_id, err_code, len, .. } => seq![
            MAGIC_I2C_READ_REG_REPLY,
            msg_id,
            err_code,
            len,
        ],
        Msg::StreamStart { msg_id } => seq![MAGIC_STREAM_START, msg_id],
        Msg::StreamStartReply { msg_id } => seq![MAGIC_STREAM_START_REPLY, msg_id],
        Msg::StreamStop { msg_id } => seq![MAGIC_STREAM_STOP, msg_id],
        Msg::StreamStopReply { msg_id } => seq![MAGIC_STREAM_STOP_REPLY, msg_id],
        Msg::VGACtrl { msg_id, nvga, gains } => seq![MAGIC_VGA_CTRL, msg_id, nvga] + gains,
        Msg::VGACtrlReply { msg_id, err_code } => seq![MAGIC_VGA_CTRL_REPLY, msg_id, err_code],
        Msg::PwrCtrl { msg_id, op_code } => seq![MAGIC_PWR_CTRL, msg_id, op_code],
        Msg::PwrCtrlReply { msg_id } => seq![MAGIC_PWR_CTRL_REPLY, msg_id],
        Msg::Init { msg_id, reserved_zeros } => seq![MAGIC_INIT, msg_id, reserved_zeros],
        Msg::InitReply { msg_id } => seq![MAGIC_INIT_REPLY, msg_id],
    }
}

/// The 32-byte image of a port record; each padding gap is written as zeros.
pub open spec fn cfg_bytes(c: CfgModel) -> Seq<u8> {
    c.dst_mac + seq![0u8, 0u8] + c.src_mac + seq![0u8, 0u8] + c.dst_ip + c.src_ip + le16(
        c.dst_port,
    ) + seq![0u8, 0u8] + le16(c.src_port) + seq![0u8, 0u8]
}

/// The images of port records, one after another.
pub open spec fn cfg_list_bytes(cs: Seq<CfgModel>) -> Seq<u8>
    decreases cs.len(),
{
    if cs.len() == 0 {
        Seq::empty()
    } else {
        cfg_list_bytes(cs.drop_last()) + cfg_bytes(cs.last())
    }
}

/// The byte-granular part of a message's wire image, after its words.
pub open spec fn tail(m: Msg) -> Seq<u8> {
    match m {
        Msg::InvalidMsg { description, .. } => description,
        Msg::XGbeCfg { cfg, .. } => cfg_list_bytes(cfg),
        Msg::I2CScanReply { payload, .. } => payload,
        Msg::I2CWrite { payload, .. } => payload,
        Msg::I2CWriteReg { payload, .. } => payload,
        Msg::I2CReadReply { payload, .. } => payload,
        Msg::I2CReadRegReply { payload, .. } => payload,
        _ => Seq::empty(),
    }
}

/// The wire image of a message: little-endian words, then the byte payload.
pub open spec fn encode_spec(m: Msg) -> Seq<u8> {
    le32s(words(m)) + tail(m)
}

pub open spec fn known_magic(magic: u32) -> bool {
    ||| magic == MAGIC_INVALID
    ||| magic == MAGIC_QUERY
    ||| magic == MAGIC_QUERY_REPLY
    ||| magic == MAGIC_SYNC
    ||| magic == MAGIC_SYNC_REPLY
    ||| magic == MAGIC_XGBE_CFG
    ||| magic == MAGIC_XGBE_CFG_REPLY
    ||| magic == MAGIC_I2C_SCAN
    ||| magic == MAGIC_I2C_SCAN_REPLY
    ||| magic == MAGIC_I2C_WRITE
    ||| magic == MAGIC_I2C_WRITE_REPLY
    ||| magic == MAGIC_I2C_WRITE_REG
    ||| magic == MAGIC_I2C_WRITE_REG_REPLY
    ||| magic == MAGIC_I2C_READ
    ||| magic == MAGIC_I2C_READ_REPLY
    ||| magic == MAGIC_I2C_READ_REG
    ||| magic == MAGIC_I2C_READ_REG_REPLY
    ||| magic == MAGIC_STREAM_START
    ||| magic == MAGIC_STREAM_START_REPLY
    ||| magic == MAGIC_STREAM_STOP
    ||| magic == MAGIC_STREAM_STOP_REPLY
    ||| magic == MAGIC_VGA_CTRL
    ||| magic == MAGIC_VGA_CTRL_REPLY
    ||| magic == MAGIC_PWR_CTRL
    ||| magic == MAGIC_PWR_CTRL_REPLY
    ||| magic == MAGIC_INIT
    ||| magic == MAGIC_INIT_REPLY
}

/// Number of fixed words, magic included, that a frame with this magic
/// starts with; for a status reply this covers the telemetry magic and count.
pub open spec fn head_words(magic: u32) -> nat {
    if magic == MAGIC_QUERY_REPLY {
        9
    } else if magic == MAGIC_I2C_WRITE_REG || magic == MAGIC_I2C_READ_REG {
        5
    } else if magic == MAGIC_INVALID || magic == MAGIC_I2C_WRITE || magic == MAGIC_I2C_READ
        || magic == MAGIC_I2C_READ_REPLY || magic == MAGIC_I2C_READ_REG_REPLY {
        4
    } else if magic == MAGIC_I2C_SCAN_REPLY || magic == MAGIC_I2C_WRITE_REPLY || magic
        == MAGIC_I2C_WRITE_REG_REPLY || magic == MAGIC_VGA_CTRL || magic == MAGIC_VGA_CTRL_REPLY
        || magic == MAGIC_PWR_CTRL || magic == MAGIC_INIT {
        3
    } else {
        2
    }
}

/// A frame whose header has been read: the telemetry magic of a status reply is known.
pub open spec fn body_known(b: Seq<u8>) -> bool {
    word(b, 0) == MAGIC_QUERY_REPLY ==> (word(b, 7) == MAGIC_HL_HEALTH || word(b, 7)
        == MAGIC_TE_HEALTH)
}

/// Number of bytes that follow the fixed words, as the header announces.
pub open spec fn body_len(b: Seq<u8>) -> int {
    let magic = word(b, 0);
    if magic == MAGIC_QUERY_REPLY {
        if word(b, 7) == MAGIC_HL_HEALTH {
            80int
        } else {
            4 * word(b, 8)
        }
    } else if magic == MAGIC_XGBE_CFG {
        4 * CFG_RECORD_LEN as int
    } else if magic == MAGIC_VGA_CTRL {
        4 * word(b, 2)
    } else if magic == MAGIC_INVALID || magic == MAGIC_I2C_SCAN_REPLY || magic == MAGIC_I2C_WRITE
        || magic == MAGIC_I2C_WRITE_REG || magic == MAGIC_I2C_READ_REPLY || magic
        == MAGIC_I2C_READ_REG_REPLY {
        word(b, head_words(magic) - 1) as int
    } else {
        0
    }
}

/// The port record whose image starts at byte `off` of `b`; padding is skipped.
pub open spec fn cfg_at(b: Seq<u8>, off: int) -> CfgModel {
    CfgModel {
        dst_mac: b.subrange(off, off + 6),
        src_mac: b.subrange(off + 8, off + 14),
        dst_ip: b.subrange(off + 16, off + 20),
        src_ip: b.subrange(off + 20, off + 24),
        dst_port: u16_at(b, off + 24),
        src_port: u16_at(b, off + 28),
    }
}

/// `n` words of `b` from word index `k`.
pub open spec fn words_at(b: Seq<u8>, k: int, n: nat) -> Seq<u32> {
    Seq::new(n, |j: int| word(b, k + j))
}

/// The telemetry record of a status reply whose header is in `b`.
pub open spec fn health_at(b: Seq<u8>) -> HealthModel {
    if word(b, 7) == MAGIC_HL_HEALTH {
        HealthModel::HLHealth {
            nhealth: word(b, 8),
            xgbe_state: words_at(b, 9, 4),
            pkt_sent: seq![
                join64(word(b, 13), word(b, 14)),
                join64(word(b, 15), word(b, 16)),
                join64(word(b, 17), word(b, 18)),
                join64(word(b, 19), word(b, 20)),
            ],
            volt12_inner: word(b, 21),
            volt12_input: word(b, 22),
            vcc1v0: word(b, 23),
            vcc1v8: word(b, 24),
            mgtavtt1v2: word(b, 25),
            mgtavtt1v0: word(b, 26),
            temperatures: words_at(b, 27, 2),
        }
    } else {
        HealthModel::TEHealth { nhealth: word(b, 8), payload: words_at(b, 9, word(b, 8) as nat) }
    }
}

/// The message held by a complete frame in `b`.
pub open spec fn build(b: Seq<u8>) -> Msg {
    let magic = word(b, 0);
    let id = word(b, 1);
    if magic == MAGIC_INVALID {
        Msg::InvalidMsg {
            msg_id: id,
            err_code: word(b, 2),
            len: word(b, 3),
            description: b.subrange(16, 16 + word(b, 3)),
        }
    } else if magic == MAGIC_QUERY {
        Msg::Query { msg_id: id }
    } else if magic == MAGIC_QUERY_REPLY {
        Msg::QueryReply {
            msg_id: id,
            fm_ver: word(b, 2),
            tick_cnt1: word(b, 3),
            tick_cnt2: word(b, 4),
            trans_state: word(b, 5),
            locked: word(b, 6),
            health: health_at(b),
        }
    } else if magic == MAGIC_SYNC {
        Msg::Sync { msg_id: id }
    } else if magic == MAGIC_SYNC_REPLY {
        Msg::SyncReply { msg_id: id }
    } else if magic == MAGIC_XGBE_CFG {
        Msg::XGbeCfg { msg_id: id, cfg: Seq::new(4, |k: int| cfg_at(b, 8 + 32 * k)) }
    } else if magic == MAGIC_XGBE_CFG_REPLY {
        Msg::XgbeCfgReply { msg_id: id }
    } else if magic == MAGIC_I2C_SCAN {
        Msg::I2CScan { msg_id: id }
    } else if magic == MAGIC_I2C_SCAN_REPLY {
        Msg::I2CScanReply {
            msg_id: id,
            ndev: word(b, 2),
            payload: b.subrange(12, 12 + word(b, 2)),
        }
    } else if magic == MAGIC_I2C_WRITE {
        Msg::I2CWrite {
            msg_id: id,
            dev_addr: word(b, 2),
            len: word(b, 3),
            payload: b.subrange(16, 16 + word(b, 3)),
        }
    } else if magic == MAGIC_I2C_WRITE_REPLY {
        Msg::I2CWriteReply { msg_id: id, err_code: word(b, 2) }
    } else if magic == MAGIC_I2C_WRITE_REG {
        Msg::I2CWriteReg {
            msg_id: id,
            dev_addr: word(b, 2),
            reg_addr: word(b, 3),
            len: word(b, 4),
            payload: b.subrange(20, 20 + word(b, 4)),
        }
    } else if magic == MAGIC_I2C_WRITE_REG_REPLY {
        Msg::I2CWriteRegReply { msg_id: id, err_code: word(b, 2) }
    } else if magic == MAGIC_I2C_READ {
        Msg::I2CRead { msg_id: id, dev_addr: word(b, 2), nbytes: word(b, 3) }
    } else if magic == MAGIC_I2C_READ_REPLY {
        Msg::I2CReadReply {
            msg_id: id,
            err_code: word(b, 2),
            len: word(b, 3),
            payload: b.subrange(16, 16 + word(b, 3)),
        }
    } else if magic == MAGIC_I2C_READ_REG {
        Msg::I2CReadReg {
            msg_id: id,
            dev_addr: word(b, 2),
            reg_addr: word(b, 3),
            nbytes: word(b, 4),
        }
    } else if magic == MAGIC_I2C_READ_REG_REPLY {
        Msg::I2CReadRegReply {
            msg_id: id,
            err_code: word(b, 2),
            len: word(b, 3),
            payload: b.subrange(16, 16 + word(b, 3)),
        }
    } else if magic == MAGIC_STREAM_START {
        Msg::StreamStart { msg_id: id }
    } else if magic == MAGIC_STREAM_START_REPLY {
        Msg::StreamStartReply { msg_id: id }
    } else if magic == MAGIC_STREAM_STOP {
        Msg::StreamStop { msg_id: id }
    } else if magic == MAGIC_STREAM_STOP_REPLY {
        Msg::StreamStopReply { msg_id: id }
    } else if magic == MAGIC_VGA_CTRL {
        Msg::VGACtrl { msg_id: id, nvga: word(b, 2), gains: words_at(b, 3, word(b, 2) as nat) }
    } else if magic == MAGIC_VGA_CTRL_REPLY {
        Msg::VGACtrlReply { msg_id: id, err_code: word(b, 2) }
    } else if magic == MAGIC_PWR_CTRL {
        Msg::PwrCtrl { msg_id: id, op_code: word(b, 2) }
    } else if magic == MAGIC_PWR_CTRL_REPLY {
        Msg::PwrCtrlReply { msg_id: id }
    } else if magic == MAGIC_INIT {
        Msg::Init { msg_id: id, reserved_zeros: word(b, 2) }
    } else {
        Msg::InitReply { msg_id: id }
    }
}

/// What a buffer holds: the message whose frame begins it. Bytes after the
/// frame are ignored; a buffer that ends inside the frame is truncated, and
/// a magic outside the table, at either level, is unknown.
pub open spec fn parse(b: Seq<u8>) -> Result<Msg, CodecError> {
    if b.len() < 4 {
        Err(CodecError::Truncated)
    } else if !known_magic(word(b, 0)) {
        Err(CodecError::UnknownMagic)
    } else if b.len() < 4 * head_words(word(b, 0)) {
        Err(CodecError::Truncated)
    } else if !body_known(b) {
        Err(CodecError::UnknownMagic)
    } else if b.len() < 4 * head_words(word(b, 0)) + body_len(b) {
        Err(CodecError::Truncated)
    } else {
        Ok(build(b))
    }
}

proof fn lemma_cfg_at(b: Seq<u8>, off: int, c: CfgModel)
    requires
        0 <= off,
        off + 32 <= b.len(),
        b.subrange(off, off + 32) == cfg_bytes(c),
        c.wf(),
    ensures
        cfg_at(b, off) == c,
{
    let s = b.subrange(off, off + 32);
    assert(b.subrange(off, off + 6) =~= c.dst_mac) by {
        assert forall|i: int| 0 <= i < 6 implies b.subrange(off, off + 6)[i] == c.dst_mac[i] by {
            assert(b[off + i] == s[i]);
        }
    }
    assert(b.subrange(off + 8, off + 14) =~= c.src_mac) by {
        assert forall|i: int| 0 <= i < 6 implies b.subrange(off + 8, off + 14)[i]
            == c.src_mac[i] by {
            assert(b[off + 8 + i] == s[8 + i]);
        }
    }
    assert(b.subrange(off + 16, off + 20) =~= c.dst_ip) by {
        assert forall|i: int| 0 <= i < 4 implies b.subrange(off + 16, off + 20)[i]
            == c.dst_ip[i] by {
            assert(b[off + 16 + i] == s[16 + i]);
        }
    }
    assert(b.subrange(off + 20, off + 24) =~= c.src_ip) by {
        assert forall|i: int| 0 <= i < 4 implies b.subrange(off + 20, off + 24)[i]
            == c.src_ip[i] by {
            assert(b[off + 20 + i] == s[20 + i]);
        }
    }
    assert(b.subrange(off + 24, off + 26) =~= le16(c.dst_port)) by {
        assert(b[off + 24] == s[24]);
        assert(b[off + 25] == s[25]);
    }
    lemma_u16_at(b, off + 24, c.dst_port);
    assert(b.subrange(off + 28, off + 30) =~= le16(c.src_port)) by {
        assert(b[off + 28] == s[28]);
        assert(b[off + 29] == s[29]);
    }
    lemma_u16_at(b, off + 28, c.src_port);
}

proof fn lemma_cfg_list_len(cs: Seq<CfgModel>)
    requires
        forall|i: int| 0 <= i < cs.len() ==> (#[trigger] cs[i]).wf(),
    ensures
        cfg_list_bytes(cs).len() == 32 * cs.len(),
    decreases cs.len(),
{
    if cs.len() > 0 {
        lemma_cfg_list_len(cs.drop_last());
        assert(cs.last().wf());
    }
}

proof fn lemma_cfg_list(cs: Seq<CfgModel>, b: Seq<u8>, off: int)
    requires
        0 <= off,
        off + 32 * cs.len() <= b.len(),
        b.subrange(off, off + 32 * cs.len()) == cfg_list_bytes(cs),
        forall|i: int| 0 <= i < cs.len() ==> (#[trigger] cs[i]).wf(),
    ensures
        forall|k: int| 0 <= k < cs.len() ==> cfg_at(b, off + 32 * k) == #[trigger] cs[k],
    decreases cs.len(),
{
    if cs.len() > 0 {
        let n = cs.len() as int;
        let init = cs.drop_last();
        lemma_cfg_list_len(init);
        assert(cs.last().wf());
        assert(b.subrange(off, off + 32 * init.len()) =~= cfg_list_bytes(init)) by {
            assert(b.subrange(off, off + 32 * init.len()) =~= b.subrange(off, off + 32 * n).subrange(
                0,
                32 * (n - 1),
            ));
        }
        lemma_cfg_list(init, b, off);
        assert(b.subrange(off + 32 * (n - 1), off + 32 * n) =~= cfg_bytes(cs.last())) by {
            assert(b.subrange(off + 32 * (n - 1), off + 32 * n) =~= b.subrange(
                off,
                off + 32 * n,
            ).subrange(32 * (n - 1), 32 * n));
        }
        lemma_cfg_at(b, off + 32 * (n - 1), cs.last());
        assert forall|k: int| 0 <= k < cs.len() implies cfg_at(b, off + 32 * k) == #[trigger] cs[k] by {
            if k < n - 1 {
                assert(init[k] == cs[k]);
            }
        }
    }
}

/// What every wire image shows: its words at their indices and its tail after them.
proof fn lemma_frame(m: Msg, rest: Seq<u8>)
    ensures
        ({
            let b = encode_spec(m) + rest;
            let ws = words(m);
            &&& b.len() == 4 * ws.len() + tail(m).len() + rest.len()
            &&& forall|k: int| 0 <= k < ws.len() ==> #[trigger] word(b, k) == ws[k]
            &&& b.subrange(4 * ws.len() as int, 4 * ws.len() + tail(m).len() as int) == tail(m)
        }),
{
    let ws = words(m);
    let t = tail(m);
    let b = encode_spec(m) + rest;
    lemma_le32s_len(ws);
    assert(b.subrange(0, 4 * ws.len() as int) =~= le32s(ws));
    lemma_words(ws, b);
    let h = 4 * ws.len() as int;
    assert(b.subrange(h, h + t.len()) =~= t);
}

proof fn lemma_round_trip_health(m: Msg, rest: Seq<u8>)
    requires
        m.wf(),
        m is QueryReply,
    ensures
        parse(encode_spec(m) + rest) == Ok::<Msg, CodecError>(m),
        encode_spec(m).len() == 4 * head_words(m.magic()) + body_len(encode_spec(m) + rest),
{
    let b = encode_spec(m) + rest;
    let ws = words(m);
    lemma_frame(m, rest);
    assert(word(b, 0) == ws[0]);
    assert(word(b, 1) == ws[1]);
    assert(word(b, 2) == ws[2]);
    assert(word(b, 3) == ws[3]);
    assert(word(b, 4) == ws[4]);
    assert(word(b, 5) == ws[5]);
    assert(word(b, 6) == ws[6]);
    assert(word(b, 7) == ws[7]);
    assert(word(b, 8) == ws[8]);
    let health = m->health;
    match health {
        HealthModel::HLHealth { xgbe_state, pkt_sent, temperatures, .. } => {
            assert(word(b, 7) == MAGIC_HL_HEALTH);
            assert(word(b, 9) == ws[9]);
            assert(word(b, 10) == ws[10]);
            assert(word(b, 11) == ws[11]);
            assert(word(b, 12) == ws[12]);
            assert(words_at(b, 9, 4) =~= xgbe_state);
            lemma_join64(pkt_sent[0]);
            lemma_join64(pkt_sent[1]);
            lemma_join64(pkt_sent[2]);
            lemma_join64(pkt_sent[3]);
            assert(word(b, 13) == ws[13]);
            assert(word(b, 14) == ws[14]);
            assert(word(b, 15) == ws[15]);
            assert(word(b, 16) == ws[16]);
            assert(word(b, 17) == ws[17]);
            assert(word(b, 18) == ws[18]);
            assert(word(b, 19) == ws[19]);
            assert(word(b, 20) == ws[20]);
            assert(word(b, 21) == ws[21]);
            assert(word(b, 22) == ws[22]);
            assert(word(b, 23) == ws[23]);
            assert(word(b, 24) == ws[24]);
            assert(word(b, 25) == ws[25]);
            assert(word(b, 26) == ws[26]);
            assert(word(b, 27) == ws[27]);
            assert(word(b, 28) == ws[28]);
            assert(words_at(b, 27, 2) =~= temperatures);
            let p = seq![
                join64(word(b, 13), word(b, 14)),
                join64(word(b, 15), word(b, 16)),
                join64(word(b, 17), word(b, 18)),
                join64(word(b, 19), word(b, 20)),
            ];
            assert(p =~= pkt_sent);
            assert(health_at(b) == health);
        },
        HealthModel::TEHealth { nhealth, payload } => {
            assert(word(b, 7) == MAGIC_TE_HEALTH);
            assert forall|j: int| 0 <= j < payload.len() implies words_at(
                b,
                9,
                nhealth as nat,
            )[j] == payload[j] by {
                assert(ws[9 + j] == payload[j]);
                assert(word(b, 9 + j) == ws[9 + j]);
            }
            assert(words_at(b, 9, nhealth as nat) =~= payload);
            assert(health_at(b) == health);
        },
    }
    assert(build(b) == m);
}

#[verifier::rlimit(40)]
proof fn lemma_round_trip_cfg(m: Msg, rest: Seq<u8>)
    requires
        m.wf(),
        m is XGbeCfg,
    ensures
        parse(encode_spec(m) + rest) == Ok::<Msg, CodecError>(m),
        encode_spec(m).len() == 4 * head_words(m.magic()) + body_len(encode_spec(m) + rest),
{
    let b = encode_spec(m) + rest;
    let ws = words(m);
    let cfg = m->cfg;
    lemma_frame(m, rest);
    assert(word(b, 0) == ws[0]);
    assert(word(b, 1) == ws[1]);
    lemma_cfg_list_len(cfg);
    lemma_cfg_list(cfg, b, 8);
    assert(Seq::new(4, |k: int| cfg_at(b, 8 + 32 * k)) =~= cfg);
}

proof fn lemma_round_trip_gains(m: Msg, rest: Seq<u8>)
    requires
        m.wf(),
        m is VGACtrl,
    ensures
        parse(encode_spec(m) + rest) == Ok::<Msg, CodecError>(m),
        encode_spec(m).len() == 4 * head_words(m.magic()) + body_len(encode_spec(m) + rest),
{
    let b = encode_spec(m) + rest;
    let ws = words(m);
    let gains = m->gains;
    lemma_frame(m, rest);
    assert(word(b, 0) == ws[0]);
    assert(word(b, 1) == ws[1]);
    assert(word(b, 2) == ws[2]);
    assert forall|j: int| 0 <= j < gains.len() implies words_at(b, 3, m->nvga as nat)[j]
        == gains[j] by {
        assert(ws[3 + j] == gains[j]);
        assert(word(b, 3 + j) == ws[3 + j]);
    }
    assert(words_at(b, 3, m->nvga as nat) =~= gains);
}

proof fn lemma_round_trip_blob(m: Msg, rest: Seq<u8>)
    requires
        m.wf(),
        m is InvalidMsg || m is I2CScanReply || m is I2CWrite || m is I2CWriteReg
            || m is I2CReadReply || m is I2CReadRegReply,
    ensures
        parse(encode_spec(m) + rest) == Ok::<Msg, CodecError>(m),
        encode_spec(m).len() == 4 * head_words(m.magic()) + body_len(encode_spec(m) + rest),
{
    let b = encode_spec(m) + rest;
    let ws = words(m);
    lemma_frame(m, rest);
    assert(word(b, 0) == ws[0]);
    assert(word(b, 1) == ws[1]);
    assert(word(b, 2) == ws[2]);
    if ws.len() > 3 {
        assert(word(b, 3) == ws[3]);
    }
    if ws.len() > 4 {
        assert(word(b, 4) == ws[4]);
    }
}

proof fn lemma_round_trip_fixed(m: Msg, rest: Seq<u8>)
    requires
        m.wf(),
        !(m is QueryReply || m is XGbeCfg || m is VGACtrl || m is InvalidMsg || m is I2CScanReply
            || m is I2CWrite || m is I2CWriteReg || m is I2CReadReply || m is I2CReadRegReply),
    ensures
        parse(encode_spec(m) + rest) == Ok::<Msg, CodecError>(m),
        encode_spec(m).len() == 4 * head_words(m.magic()) + body_len(encode_spec(m) + rest),
{
    let b = encode_spec(m) + rest;
    let ws = words(m);
    lemma_frame(m, rest);
    assert(word(b, 0) == ws[0]);
    assert(word(b, 1) == ws[1]);
    if ws.len() > 2 {
        assert(word(b, 2) == ws[2]);
    }
    if ws.len() > 3 {
        assert(word(b, 3) == ws[3]);
    }
    if ws.len() > 4 {
        assert(word(b, 4) == ws[4]);
    }
}

/// Reading back the wire image of a well-formed message, followed by any
/// bytes at all, gives the message.
pub proof fn lemma_round_trip(m: Msg, rest: Seq<u8>)
    requires
        m.wf(),
    ensures
        parse(encode_spec(m) + rest) == Ok::<Msg, CodecError>(m),
        encode_spec(m).len() == 4 * head_words(m.magic()) + body_len(encode_spec(m) + rest),
{
    if m is QueryReply {
        lemma_round_trip_health(m, rest);
    } else if m is XGbeCfg {
        lemma_round_trip_cfg(m, rest);
    } else if m is VGACtrl {
        lemma_round_trip_gains(m, rest);
    } else if m is InvalidMsg || m is I2CScanReply || m is I2CWrite || m is I2CWriteReg
        || m is I2CReadReply || m is I2CReadRegReply {
        lemma_round_trip_blob(m, rest);
    } else {
        lemma_round_trip_fixed(m, rest);
    }
}

/// Changing the correlation token changes bytes 4 to 8 of the image and nothing else.
#[verifier::rlimit(60)]
pub proof fn lemma_encode_with_id(m: Msg, t: u32)
    ensures
        encode_spec(m).len() >= 8,
        encode_spec(m.with_msg_id(t)) == encode_spec(m).subrange(0, 4) + le32(t) + encode_spec(
            m,
        ).skip(8),
{
    let ws = words(m);
    let ws2 = words(m.with_msg_id(t));
    assert(ws2 =~= ws.update(1, t));
    assert(tail(m.with_msg_id(t)) == tail(m));
    let head = seq![ws[0], ws[1]];
    let head2 = seq![ws[0], t];
    let more = ws.skip(2);
    assert(ws =~= head + more);
    assert(ws2 =~= head2 + more);
    lemma_le32s_add(head, more);
    lemma_le32s_add(head2, more);
    assert(head.drop_last() =~= seq![ws[0]]);
    assert(head2.drop_last() =~= seq![ws[0]]);
    assert(seq![ws[0]].drop_last() =~= Seq::<u32>::empty());
    reveal_with_fuel(le32s, 3);
    assert(le32s(head) =~= le32(ws[0]) + le32(ws[1]));
    assert(le32s(head2) =~= le32(ws[0]) + le32(t));
    lemma_le32s_len(more);
    assert(encode_spec(m.with_msg_id(t)) =~= encode_spec(m).subrange(0, 4) + le32(t)
        + encode_spec(m).skip(8));
}

/// A buffer that stops anywhere inside the image of a well-formed message
/// reads as truncated, whatever its count fields announce.
pub proof fn lemma_prefix_truncated(m: Msg, k: int)
    requires
        m.wf(),
        0 <= k < encode_spec(m).len(),
    ensures
        parse(encode_spec(m).take(k)) == Err::<Msg, CodecError>(CodecError::Truncated),
{
    let full = encode_spec(m);
    let b = full.take(k);
    lemma_round_trip(m, Seq::empty());
    assert(full + Seq::<u8>::empty() =~= full);
    if k >= 4 {
        assert(word(b, 0) == word(full, 0));
        let h = head_words(word(full, 0));
        if k >= 4 * h {
            assert forall|j: int| 0 <= j < h implies #[trigger] word(b, j) == word(full, j) by {
                assert(b[4 * j] == full[4 * j]);
                assert(b[4 * j + 1] == full[4 * j + 1]);
                assert(b[4 * j + 2] == full[4 * j + 2]);
                assert(b[4 * j + 3] == full[4 * j + 3]);
            }
            if word(full, 0) == MAGIC_QUERY_REPLY {
                assert(word(b, 7) == word(full, 7));
                assert(word(b, 8) == word(full, 8));
            }
            if h >= 3 {
                assert(word(b, 2) == word(full, 2));
            }
            assert(word(b, h - 1) == word(full, h - 1));
            assert(body_len(b) == body_len(full));
        }
    }
}

} // verus!
