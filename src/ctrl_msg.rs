//! Control messages and their binary codec.
use vstd::prelude::*;
use crate::model::{
    body_known, body_len, build, cfg_at, encode_spec, head_words, health_at, known_magic, parse,
    words, words_at, cfg_bytes, cfg_list_bytes, health_words, CfgModel,
    CodecError, HealthModel, Msg, MAGIC_HL_HEALTH, MAGIC_I2C_READ, MAGIC_I2C_READ_REG,
    MAGIC_I2C_READ_REG_REPLY, MAGIC_I2C_READ_REPLY, MAGIC_I2C_SCAN, MAGIC_I2C_SCAN_REPLY,
    MAGIC_I2C_WRITE, MAGIC_I2C_WRITE_REG, MAGIC_I2C_WRITE_REG_REPLY, MAGIC_I2C_WRITE_REPLY,
    MAGIC_INIT, MAGIC_INIT_REPLY, MAGIC_INVALID, MAGIC_PWR_CTRL, MAGIC_PWR_CTRL_REPLY,
    MAGIC_QUERY, MAGIC_QUERY_REPLY, MAGIC_STREAM_START, MAGIC_STREAM_START_REPLY,
    MAGIC_STREAM_STOP, MAGIC_STREAM_STOP_REPLY, MAGIC_SYNC, MAGIC_SYNC_REPLY, MAGIC_TE_HEALTH,
    MAGIC_VGA_CTRL, MAGIC_VGA_CTRL_REPLY, MAGIC_XGBE_CFG, MAGIC_XGBE_CFG_REPLY,
};
use crate::wire::{
    join64, put_bytes, put_u16, put_words, read_bytes, read_u16, read_word, read_words, word,
};

verus! {

/// One data-path port: destination and source MAC, IPv4 address and UDP port.
#[derive(Clone, Copy, Debug)]
pub struct XGbeCfg {
    pub dst_mac: [u8; 6],
    pub src_mac: [u8; 6],
    pub dst_ip: [u8; 4],
    pub src_ip: [u8; 4],
    pub dst_port: u16,
    pub src_port: u16,
}

/// Telemetry carried by a status reply, in one of two formats.
#[derive(Clone, Debug)]
pub enum Health {
    HLHealth {
        nhealth: u32,
        xgbe_state: [u32; 4],
        pkt_sent: [u64; 4],
        volt12_inner: u32,
        volt12_input: u32,
        vcc1v0: u32,
        vcc1v8: u32,
        mgtavtt1v2: u32,
        mgtavtt1v0: u32,
        temperatures: [u32; 2],
    },
    TEHealth { nhealth: u32, payload: Vec<u32> },
}

/// A control message: a request to the device or the device's reply.
#[derive(Clone, Debug)]
pub enum CtrlMsg {
    InvalidMsg { msg_id: u32, err_code: u32, len: u32, description: Vec<u8> },
    Query { msg_id: u32 },
    QueryReply {
        msg_id: u32,
        fm_ver: u32,
        tick_cnt1: u32,
        tick_cnt2: u32,
        trans_state: u32,
        locked: u32,
        health: Health,
    },
    Sync { msg_id: u32 },
    SyncReply { msg_id: u32 },
    XGbeCfg { msg_id: u32, cfg: [XGbeCfg; 4] },
    XgbeCfgReply { msg_id: u32 },
    I2CScan { msg_id: u32 },
    I2CScanReply { msg_id: u32, ndev: u32, payload: Vec<u8> },
    I2CWrite { msg_id: u32, dev_addr: u32, len: u32, payload: Vec<u8> },
    I2CWriteReply { msg_id: u32, err_code: u32 },
    I2CWriteReg { msg_id: u32, dev_addr: u32, reg_addr: u32, len: u32, payload: Vec<u8> },
    I2CWriteRegReply { msg_id: u32, err_code: u32 },
    I2CRead { msg_id: u32, dev_addr: u32, nbytes: u32 },
    I2CReadReply { msg_id: u32, err_code: u32, len: u32, payload: Vec<u8> },
    I2CReadReg { msg_id: u32, dev_addr: u32, reg_addr: u32, nbytes: u32 },
    I2CReadRegReply { msg_id: u32, err_code: u32, len: u32, payload: Vec<u8> },
    StreamStart { msg_id: u32 },
    StreamStartReply { msg_id: u32 },
    StreamStop { msg_id: u32 },
    StreamStopReply { msg_id: u32 },
    VGACtrl { msg_id: u32, nvga: u32, gains: Vec<u32> },
    VGACtrlReply { msg_id: u32, err_code: u32 },
    PwrCtrl { msg_id: u32, op_code: u32 },
    PwrCtrlReply { msg_id: u32 },
    Init { msg_id: u32, reserved_zeros: u32 },
    InitReply { msg_id: u32 },
}

impl View for XGbeCfg {
    type V = CfgModel;

    open spec fn view(&self) -> CfgModel {
        CfgModel {
            dst_mac: self.dst_mac@,
            src_mac: self.src_mac@,
            dst_ip: self.dst_ip@,
            src_ip: self.src_ip@,
            dst_port: self.dst_port,
            src_port: self.src_port,
        }
    }
}

impl View for Health {
    type V = HealthModel;

    open spec fn view(&self) -> HealthModel {
        match self {
            Health::HLHealth {
                nhealth,
                xgbe_state,
                pkt_sent,
                volt12_inner,
                volt12_input,
                vcc1v0,
                vcc1v8,
                mgtavtt1v2,
                mgtavtt1v0,
                temperatures,
            } => HealthModel::HLHealth {
                nhealth: *nhealth,
                xgbe_state: xgbe_state@,
                pkt_sent: pkt_sent@,
                volt12_inner: *volt12_inner,
                volt12_input: *volt12_input,
                vcc1v0: *vcc1v0,
                vcc1v8: *vcc1v8,
                mgtavtt1v2: *mgtavtt1v2,
                mgtavtt1v0: *mgtavtt1v0,
                temperatures: temperatures@,
            },
            Health::TEHealth { nhealth, payload } => HealthModel::TEHealth {
                nhealth: *nhealth,
                payload: payload@,
            },
        }
    }
}

impl View for CtrlMsg {
    type V = Msg;

    open spec fn view(&self) -> Msg {
        match self {
            CtrlMsg::InvalidMsg { msg_id, err_code, len, description } => Msg::InvalidMsg {
                msg_id: *msg_id,
                err_code: *err_code,
                len: *len,
                description: description@,
            },
            CtrlMsg::Query { msg_id } => Msg::Query { msg_id: *msg_id },
            CtrlMsg::QueryReply {
                msg_id,
                fm_ver,
                tick_cnt1,
                tick_cnt2,
                trans_state,
                locked,
                health,
            } => Msg::QueryReply {
                msg_id: *msg_id,
                fm_ver: *fm_ver,
                tick_cnt1: *tick_cnt1,
                tick_cnt2: *tick_cnt2,
                trans_state: *trans_state,
                locked: *locked,
                health: health@,
            },
            CtrlMsg::Sync { msg_id } => Msg::Sync { msg_id: *msg_id },
            CtrlMsg::SyncReply { msg_id } => Msg::SyncReply { msg_id: *msg_id },
            CtrlMsg::XGbeCfg { msg_id, cfg } => Msg::XGbeCfg {
                msg_id: *msg_id,
                cfg: cfg@.map_values(|c: XGbeCfg| c@),
            },
            CtrlMsg::XgbeCfgReply { msg_id } => Msg::XgbeCfgReply { msg_id: *msg_id },
            CtrlMsg::I2CScan { msg_id } => Msg::I2CScan { msg_id: *msg_id },
            CtrlMsg::I2CScanReply { msg_id, ndev, payload } => Msg::I2CScanReply {
                msg_id: *msg_id,
                ndev: *ndev,
                payload: payload@,
            },
            CtrlMsg::I2CWrite { msg_id, dev_addr, len, payload } => Msg::I2CWrite {
                msg_id: *msg_id,
                dev_addr: *dev_addr,
                len: *len,
                payload: payload@,
            },
            CtrlMsg::I2CWriteReply { msg_id, err_code } => Msg::I2CWriteReply {
                msg_id: *msg_id,
                err_code: *err_code,
            },
            CtrlMsg::I2CWriteReg { msg_id, dev_addr, reg_addr, len, payload } =>
                Msg::I2CWriteReg {
                msg_id: *msg_id,
                dev_addr: *dev_addr,
                reg_addr: *reg_addr,
                len: *len,
                payload: payload@,
            },
            CtrlMsg::I2CWriteRegReply { msg_id, err_code } => Msg::I2CWriteRegReply {
                msg_id: *msg_id,
                err_code: *err_code,
            },
            CtrlMsg::I2CRead { msg_id, dev_addr, nbytes } => Msg::I2CRead {
                msg_id: *msg_id,
                dev_addr: *dev_addr,
                nbytes: *nbytes,
            },
            CtrlMsg::I2CReadReply { msg_id, err_code, len, payload } => Msg::I2CReadReply {
                msg_id: *msg_id,
                err_code: *err_code,
                len: *len,
                payload: payload@,
            },
            CtrlMsg::I2CReadReg { msg_id, dev_addr, reg_addr, nbytes } => Msg::I2CReadReg {
                msg_id: *msg_id,
                dev_addr: *dev_addr,
                reg_addr: *reg_addr,
                nbytes: *nbytes,
            },
            CtrlMsg::I2CReadRegReply { msg_id, err_code, len, payload } =>
                Msg::I2CReadRegReply {
                msg_id: *msg_id,
                err_code: *err_code,
                len: *len,
                payload: payload@,
            },
            CtrlMsg::StreamStart { msg_id } => Msg::StreamStart { msg_id: *msg_id },
            CtrlMsg::StreamStartReply { msg_id } => Msg::StreamStartReply { msg_id: *msg_id },
            CtrlMsg::StreamStop { msg_id } => Msg::StreamStop { msg_id: *msg_id },
            CtrlMsg::StreamStopReply { msg_id } => Msg::StreamStopReply { msg_id: *msg_id },
            CtrlMsg::VGACtrl { msg_id, nvga, gains } => Msg::VGACtrl {
                msg_id: *msg_id,
                nvga: *nvga,
                gains: gains@,
            },
            CtrlMsg::VGACtrlReply { msg_id, err_code } => Msg::VGACtrlReply {
                msg_id: *msg_id,
                err_code: *err_code,
            },
            CtrlMsg::PwrCtrl { msg_id, op_code } => Msg::PwrCtrl {
                msg_id: *msg_id,
                op_code: *op_code,
            },
            CtrlMsg::PwrCtrlReply { msg_id } => Msg::PwrCtrlReply { msg_id: *msg_id },
            CtrlMsg::Init { msg_id, reserved_zeros } => Msg::Init {
                msg_id: *msg_id,
                reserved_zeros: *reserved_zeros,
            },
            CtrlMsg::InitReply { msg_id } => Msg::InitReply { msg_id: *msg_id },
        }
    }
}

/// The model of a decoding outcome.
pub open spec fn decoded(r: Result<CtrlMsg, CodecError>) -> Result<Msg, CodecError> {
    match r {
        Ok(m) => Ok(m@),
        Err(e) => Err(e),
    }
}

impl CtrlMsg {
    /// Replaces the correlation token; every other field stays as it was.
    pub fn set_msg_id(&mut self, mid: u32)
        ensures
            final(self)@ == old(self)@.with_msg_id(mid),
    {
        match self {
            CtrlMsg::InvalidMsg { msg_id, .. } => *msg_id = mid,
            CtrlMsg::Query { msg_id } => *msg_id = mid,
            CtrlMsg::QueryReply { msg_id, .. } => *msg_id = mid,
            CtrlMsg::Sync { msg_id } => *msg_id = mid,
            CtrlMsg::SyncReply { msg_id } => *msg_id = mid,
            CtrlMsg::XGbeCfg { msg_id, .. } => *msg_id = mid,
            CtrlMsg::XgbeCfgReply { msg_id } => *msg_id = mid,
            CtrlMsg::I2CScan { msg_id } => *msg_id = mid,
            CtrlMsg::I2CScanReply { msg_id, .. } => *msg_id = mid,
            CtrlMsg::I2CWrite { msg_id, .. } => *msg_id = mid,
            CtrlMsg::I2CWriteReply { msg_id, .. } => *msg_id = mid,
            CtrlMsg::I2CWriteReg { msg_id, .. } => *msg_id = mid,
            CtrlMsg::I2CWriteRegReply { msg_id, .. } => *msg_id = mid,
            CtrlMsg::I2CRead { msg_id, .. } => *msg_id = mid,
            CtrlMsg::I2CReadReply { msg_id, .. } => *msg_id = mid,
            CtrlMsg::I2CReadReg { msg_id, .. } => *msg_id = mid,
            CtrlMsg::I2CReadRegReply { msg_id, .. } => *msg_id = mid,
            CtrlMsg::StreamStart { msg_id } => *msg_id = mid,
            CtrlMsg::StreamStartReply { msg_id } => *msg_id = mid,
            CtrlMsg::StreamStop { msg_id } => *msg_id = mid,
            CtrlMsg::StreamStopReply { msg_id } => *msg_id = mid,
            CtrlMsg::VGACtrl { msg_id, .. } => *msg_id = mid,
            CtrlMsg::VGACtrlReply { msg_id, .. } => *msg_id = mid,
            CtrlMsg::PwrCtrl { msg_id, .. } => *msg_id = mid,
            CtrlMsg::PwrCtrlReply { msg_id } => *msg_id = mid,
            CtrlMsg::Init { msg_id, .. } => *msg_id = mid,
            CtrlMsg::InitReply { msg_id } => *msg_id = mid,
        }
    }

    /// The correlation token.
    pub fn get_msg_id(&self) -> (r: u32)
        ensures
            r == self@.msg_id(),
    {
        match self {
            CtrlMsg::InvalidMsg { msg_id, .. } => *msg_id,
            CtrlMsg::Query { msg_id } => *msg_id,
            CtrlMsg::QueryReply { msg_id, .. } => *msg_id,
            CtrlMsg::Sync { msg_id } => *msg_id,
            CtrlMsg::SyncReply { msg_id } => *msg_id,
            CtrlMsg::XGbeCfg { msg_id, .. } => *msg_id,
            CtrlMsg::XgbeCfgReply { msg_id } => *msg_id,
            CtrlMsg::I2CScan { msg_id } => *msg_id,
            CtrlMsg::I2CScanReply { msg_id, .. } => *msg_id,
            CtrlMsg::I2CWrite { msg_id, .. } => *msg_id,
            CtrlMsg::I2CWriteReply { msg_id, .. } => *msg_id,
            CtrlMsg::I2CWriteReg { msg_id, .. } => *msg_id,
            CtrlMsg::I2CWriteRegReply { msg_id, .. } => *msg_id,
            CtrlMsg::I2CRead { msg_id, .. } => *msg_id,
            CtrlMsg::I2CReadReply { msg_id, .. } => *msg_id,
            CtrlMsg::I2CReadReg { msg_id, .. } => *msg_id,
            CtrlMsg::I2CReadRegReply { msg_id, .. } => *msg_id,
            CtrlMsg::StreamStart { msg_id } => *msg_id,
            CtrlMsg::StreamStartReply { msg_id } => *msg_id,
            CtrlMsg::StreamStop { msg_id } => *msg_id,
            CtrlMsg::StreamStopReply { msg_id } => *msg_id,
            CtrlMsg::VGACtrl { msg_id, .. } => *msg_id,
            CtrlMsg::VGACtrlReply { msg_id, .. } => *msg_id,
            CtrlMsg::PwrCtrl { msg_id, .. } => *msg_id,
            CtrlMsg::PwrCtrlReply { msg_id } => *msg_id,
            CtrlMsg::Init { msg_id, .. } => *msg_id,
            CtrlMsg::InitReply { msg_id } => *msg_id,
        }
    }

    /// Whether this is the device's rejection of a request.
    pub fn is_invalid(&self) -> (r: bool)
        ensures
            r == (self@ is InvalidMsg),
    {
        match self {
            CtrlMsg::InvalidMsg { .. } => true,
            _ => false,
        }
    }
}

fn append_words(v: &mut Vec<u32>, ws: &Vec<u32>)
    ensures
        final(v)@ == old(v)@ + ws@,
{
    let mut j: usize = 0;
    while j < ws.len()
        invariant
            j <= ws@.len(),
            v@ == old(v)@ + ws@.subrange(0, j as int),
        decreases ws@.len() - j,
    {
        v.push(ws[j]);
        j = j + 1;
        assert(v@ =~= old(v)@ + ws@.subrange(0, j as int));
    }
    assert(ws@.subrange(0, j as int) =~= ws@);
}

fn health_words_of(h: &Health) -> (r: Vec<u32>)
    ensures
        r@ == health_words(h@),
{
    match h {
        Health::HLHealth {
            nhealth,
            xgbe_state: x,
            pkt_sent: p,
            volt12_inner,
            volt12_input,
            vcc1v0,
            vcc1v8,
            mgtavtt1v2,
            mgtavtt1v0,
            temperatures: t,
        } => {
            let r = vec![
                MAGIC_HL_HEALTH,
                *nhealth,
                x[0],
                x[1],
                x[2],
                x[3],
                (p[0] & 0xffff_ffff) as u32,
                (p[0] >> 32u64) as u32,
                (p[1] & 0xffff_ffff) as u32,
                (p[1] >> 32u64) as u32,
                (p[2] & 0xffff_ffff) as u32,
                (p[2] >> 32u64) as u32,
                (p[3] & 0xffff_ffff) as u32,
                (p[3] >> 32u64) as u32,
                *volt12_inner,
                *volt12_input,
                *vcc1v0,
                *vcc1v8,
                *mgtavtt1v2,
                *mgtavtt1v0,
                t[0],
                t[1],
            ];
            assert(r@ =~= health_words(h@));
            r
        },
        Health::TEHealth { nhealth, payload } => {
            let mut r = vec![MAGIC_TE_HEALTH, *nhealth];
            append_words(&mut r, payload);
            assert(r@ =~= health_words(h@));
            r
        },
    }
}

fn put_cfg(out: &mut Vec<u8>, c: &XGbeCfg)
    ensures
        final(out)@ == old(out)@ + cfg_bytes(c@),
{
    let pad: [u8; 2] = [0, 0];
    put_bytes(out, c.dst_mac.as_slice());
    put_bytes(out, pad.as_slice());
    put_bytes(out, c.src_mac.as_slice());
    put_bytes(out, pad.as_slice());
    put_bytes(out, c.dst_ip.as_slice());
    put_bytes(out, c.src_ip.as_slice());
    put_u16(out, c.dst_port);
    put_bytes(out, pad.as_slice());
    put_u16(out, c.src_port);
    put_bytes(out, pad.as_slice());
    assert(pad@ =~= seq![0u8, 0u8]);
    assert(out@ =~= old(out)@ + cfg_bytes(c@));
}

fn put_cfgs(out: &mut Vec<u8>, cs: &[XGbeCfg; 4])
    ensures
        final(out)@ == old(out)@ + cfg_list_bytes(cs@.map_values(|c: XGbeCfg| c@)),
{
    let ghost models = cs@.map_values(|c: XGbeCfg| c@);
    let mut j: usize = 0;
    while j < 4
        invariant
            j <= 4,
            models == cs@.map_values(|c: XGbeCfg| c@),
            models.len() == 4,
            out@ == old(out)@ + cfg_list_bytes(models.subrange(0, j as int)),
        decreases 4 - j,
    {
        put_cfg(out, &cs[j]);
        j = j + 1;
        assert(models.subrange(0, j as int).drop_last() =~= models.subrange(0, j - 1));
        assert(out@ =~= old(out)@ + cfg_list_bytes(models.subrange(0, j as int)));
    }
    assert(models.subrange(0, 4) =~= models);
}

fn health_is_well_formed(h: &Health) -> (r: bool)
    ensures
        r == h@.wf(),
{
    match h {
        Health::HLHealth { .. } => true,
        Health::TEHealth { nhealth, payload } => *nhealth as usize == payload.len(),
    }
}

fn is_known_magic(magic: u32) -> (r: bool)
    ensures
        r == known_magic(magic),
{
    magic == MAGIC_INVALID || magic == MAGIC_QUERY || magic == MAGIC_QUERY_REPLY || magic
        == MAGIC_SYNC || magic == MAGIC_SYNC_REPLY || magic == MAGIC_XGBE_CFG || magic
        == MAGIC_XGBE_CFG_REPLY || magic == MAGIC_I2C_SCAN || magic == MAGIC_I2C_SCAN_REPLY
        || magic == MAGIC_I2C_WRITE || magic == MAGIC_I2C_WRITE_REPLY || magic
        == MAGIC_I2C_WRITE_REG || magic == MAGIC_I2C_WRITE_REG_REPLY || magic == MAGIC_I2C_READ
        || magic == MAGIC_I2C_READ_REPLY || magic == MAGIC_I2C_READ_REG || magic
        == MAGIC_I2C_READ_REG_REPLY || magic == MAGIC_STREAM_START || magic
        == MAGIC_STREAM_START_REPLY || magic == MAGIC_STREAM_STOP || magic
        == MAGIC_STREAM_STOP_REPLY || magic == MAGIC_VGA_CTRL || magic == MAGIC_VGA_CTRL_REPLY
        || magic == MAGIC_PWR_CTRL || magic == MAGIC_PWR_CTRL_REPLY || magic == MAGIC_INIT
        || magic == MAGIC_INIT_REPLY
}

fn head_words_of(magic: u32) -> (r: usize)
    ensures
        r == head_words(magic),
{
    if magic == MAGIC_QUERY_REPLY {
        9
    } else if magic == MAGIC_I2C_WRITE_REG || magic == MAGIC_I2C_READ_REG {
        5
    } else if magic == MAGIC_INVALID || magic == MAGIC_I2C_WRITE || magic == MAGIC_I2C_READ
        || magic == MAGIC_I2C_READ_REPLY || magic == MAGIC_I2C_READ_REG_REPLY {
        4
    } else if magic == MAGIC_I2C_SCAN_REPLY || magic == MAGIC_I2C_WRITE_REPLY || magic
        == MAGIC_I2C_WRITE_REG_REPLY || magic == MAGIC_VGA_CTRL || magic == MAGIC_VGA_CTRL_REPLY
        || magic == MAGIC_PWR_CTRL || magic == MAGIC_INIT {
        3
    } else {
        2
    }
}

/// The body length that the header in `b` announces, in bytes.
fn body_len_of(b: &[u8]) -> (r: u64)
    requires
        4 <= b@.len(),
        4 * head_words(word(b@, 0)) <= b@.len(),
    ensures
        r == body_len(b@),
{
    let magic = read_word(b, 0);
    if magic == MAGIC_QUERY_REPLY {
        if read_word(b, 7) == MAGIC_HL_HEALTH {
            80
        } else {
            4 * (read_word(b, 8) as u64)
        }
    } else if magic == MAGIC_XGBE_CFG {
        128
    } else if magic == MAGIC_VGA_CTRL {
        4 * (read_word(b, 2) as u64)
    } else if magic == MAGIC_INVALID || magic == MAGIC_I2C_SCAN_REPLY || magic == MAGIC_I2C_WRITE
        || magic == MAGIC_I2C_WRITE_REG || magic == MAGIC_I2C_READ_REPLY || magic
        == MAGIC_I2C_READ_REG_REPLY {
        read_word(b, head_words_of(magic) - 1) as u64
    } else {
        0
    }
}

fn read_cfg(b: &[u8], off: usize) -> (r: XGbeCfg)
    requires
        off + 32 <= b@.len(),
    ensures
        r@ == cfg_at(b@, off as int),
{
    let dst_mac: [u8; 6] = [b[off], b[off + 1], b[off + 2], b[off + 3], b[off + 4], b[off + 5]];
    let src_mac: [u8; 6] = [
        b[off + 8],
        b[off + 9],
        b[off + 10],
        b[off + 11],
        b[off + 12],
        b[off + 13],
    ];
    let dst_ip: [u8; 4] = [b[off + 16], b[off + 17], b[off + 18], b[off + 19]];
    let src_ip: [u8; 4] = [b[off + 20], b[off + 21], b[off + 22], b[off + 23]];
    let r = XGbeCfg {
        dst_mac,
        src_mac,
        dst_ip,
        src_ip,
        dst_port: read_u16(b, off + 24),
        src_port: read_u16(b, off + 28),
    };
    assert(r@.dst_mac =~= b@.subrange(off as int, off + 6));
    assert(r@.src_mac =~= b@.subrange(off + 8, off + 14));
    assert(r@.dst_ip =~= b@.subrange(off + 16, off + 20));
    assert(r@.src_ip =~= b@.subrange(off + 20, off + 24));
    r
}

fn read_health(b: &[u8]) -> (r: Health)
    requires
        36 <= b@.len(),
        body_known(b@),
        word(b@, 0) == MAGIC_QUERY_REPLY,
        36 + body_len(b@) <= b@.len(),
    ensures
        r@ == health_at(b@),
{
    if read_word(b, 7) == MAGIC_HL_HEALTH {
        let pkt0 = (read_word(b, 13) as u64) | ((read_word(b, 14) as u64) << 32u64);
        let pkt1 = (read_word(b, 15) as u64) | ((read_word(b, 16) as u64) << 32u64);
        let pkt2 = (read_word(b, 17) as u64) | ((read_word(b, 18) as u64) << 32u64);
        let pkt3 = (read_word(b, 19) as u64) | ((read_word(b, 20) as u64) << 32u64);
        let xs = [read_word(b, 9), read_word(b, 10), read_word(b, 11), read_word(b, 12)];
        let ps = [pkt0, pkt1, pkt2, pkt3];
        let ts = [read_word(b, 27), read_word(b, 28)];
        assert(xs@ =~= words_at(b@, 9, 4));
        assert(ts@ =~= words_at(b@, 27, 2));
        assert(ps@ =~= seq![
            join64(word(b@, 13), word(b@, 14)),
            join64(word(b@, 15), word(b@, 16)),
            join64(word(b@, 17), word(b@, 18)),
            join64(word(b@, 19), word(b@, 20)),
        ]);
        let r = Health::HLHealth {
            nhealth: read_word(b, 8),
            xgbe_state: xs,
            pkt_sent: ps,
            volt12_inner: read_word(b, 21),
            volt12_input: read_word(b, 22),
            vcc1v0: read_word(b, 23),
            vcc1v8: read_word(b, 24),
            mgtavtt1v2: read_word(b, 25),
            mgtavtt1v0: read_word(b, 26),
            temperatures: ts,
        };
        r
    } else {
        let n = read_word(b, 8);
        let payload = read_words(b, 9, n as usize);
        Health::TEHealth { nhealth: n, payload }
    }
}

/// The message in a complete frame at the start of `b`.
fn build_msg(b: &[u8]) -> (r: CtrlMsg)
    requires
        4 <= b@.len(),
        known_magic(word(b@, 0)),
        body_known(b@),
        4 * head_words(word(b@, 0)) + body_len(b@) <= b@.len(),
    ensures
        r@ == build(b@),
{
    let magic = read_word(b, 0);
    let id = read_word(b, 1);
    if magic == MAGIC_INVALID {
        let len = read_word(b, 3);
        CtrlMsg::InvalidMsg {
            msg_id: id,
            err_code: read_word(b, 2),
            len,
            description: read_bytes(b, 16, len as usize),
        }
    } else if magic == MAGIC_QUERY {
        CtrlMsg::Query { msg_id: id }
    } else if magic == MAGIC_QUERY_REPLY {
        CtrlMsg::QueryReply {
            msg_id: id,
            fm_ver: read_word(b, 2),
            tick_cnt1: read_word(b, 3),
            tick_cnt2: read_word(b, 4),
            trans_state: read_word(b, 5),
            locked: read_word(b, 6),
            health: read_health(b),
        }
    } else if magic == MAGIC_SYNC {
        CtrlMsg::Sync { msg_id: id }
    } else if magic == MAGIC_SYNC_REPLY {
        CtrlMsg::SyncReply { msg_id: id }
    } else if magic == MAGIC_XGBE_CFG {
        let cfg = [read_cfg(b, 8), read_cfg(b, 40), read_cfg(b, 72), read_cfg(b, 104)];
        assert(cfg@.map_values(|c: XGbeCfg| c@) =~= Seq::new(
            4,
            |k: int| cfg_at(b@, 8 + 32 * k),
        )) by {
            assert(cfg@[0]@ == cfg_at(b@, 8));
            assert(cfg@[1]@ == cfg_at(b@, 40));
            assert(cfg@[2]@ == cfg_at(b@, 72));
            assert(cfg@[3]@ == cfg_at(b@, 104));
        }
        CtrlMsg::XGbeCfg { msg_id: id, cfg }
    } else if magic == MAGIC_XGBE_CFG_REPLY {
        CtrlMsg::XgbeCfgReply { msg_id: id }
    } else if magic == MAGIC_I2C_SCAN {
        CtrlMsg::I2CScan { msg_id: id }
    } else if magic == MAGIC_I2C_SCAN_REPLY {
        let n = read_word(b, 2);
        CtrlMsg::I2CScanReply { msg_id: id, ndev: n, payload: read_bytes(b, 12, n as usize) }
    } else if magic == MAGIC_I2C_WRITE {
        let len = read_word(b, 3);
        CtrlMsg::I2CWrite {
            msg_id: id,
            dev_addr: read_word(b, 2),
            len,
            payload: read_bytes(b, 16, len as usize),
        }
    } else if magic == MAGIC_I2C_WRITE_REPLY {
        CtrlMsg::I2CWriteReply { msg_id: id, err_code: read_word(b, 2) }
    } else if magic == MAGIC_I2C_WRITE_REG {
        let len = read_word(b, 4);
        CtrlMsg::I2CWriteReg {
            msg_id: id,
            dev_addr: read_word(b, 2),
            reg_addr: read_word(b, 3),
            len,
            payload: read_bytes(b, 20, len as usize),
        }
    } else if magic == MAGIC_I2C_WRITE_REG_REPLY {
        CtrlMsg::I2CWriteRegReply { msg_id: id, err_code: read_word(b, 2) }
    } else if magic == MAGIC_I2C_READ {
        CtrlMsg::I2CRead { msg_id: id, dev_addr: read_word(b, 2), nbytes: read_word(b, 3) }
    } else if magic == MAGIC_I2C_READ_REPLY {
        let len = read_word(b, 3);
        CtrlMsg::I2CReadReply {
            msg_id: id,
            err_code: read_word(b, 2),
            len,
            payload: read_bytes(b, 16, len as usize),
        }
    } else if magic == MAGIC_I2C_READ_REG {
        CtrlMsg::I2CReadReg {
            msg_id: id,
            dev_addr: read_word(b, 2),
            reg_addr: read_word(b, 3),
            nbytes: read_word(b, 4),
        }
    } else if magic == MAGIC_I2C_READ_REG_REPLY {
        let len = read_word(b, 3);
        CtrlMsg::I2CReadRegReply {
            msg_id: id,
            err_code: read_word(b, 2),
            len,
            payload: read_bytes(b, 16, len as usize),
        }
    } else if magic == MAGIC_STREAM_START {
        CtrlMsg::StreamStart { msg_id: id }
    } else if magic == MAGIC_STREAM_START_REPLY {
        CtrlMsg::StreamStartReply { msg_id: id }
    } else if magic == MAGIC_STREAM_STOP {
        CtrlMsg::StreamStop { msg_id: id }
    } else if magic == MAGIC_STREAM_STOP_REPLY {
        CtrlMsg::StreamStopReply { msg_id: id }
    } else if magic == MAGIC_VGA_CTRL {
        let n = read_word(b, 2);
        CtrlMsg::VGACtrl { msg_id: id, nvga: n, gains: read_words(b, 3, n as usize) }
    } else if magic == MAGIC_VGA_CTRL_REPLY {
        CtrlMsg::VGACtrlReply { msg_id: id, err_code: read_word(b, 2) }
    } else if magic == MAGIC_PWR_CTRL {
        CtrlMsg::PwrCtrl { msg_id: id, op_code: read_word(b, 2) }
    } else if magic == MAGIC_PWR_CTRL_REPLY {
        CtrlMsg::PwrCtrlReply { msg_id: id }
    } else if magic == MAGIC_INIT {
        CtrlMsg::Init { msg_id: id, reserved_zeros: read_word(b, 2) }
    } else {
        CtrlMsg::InitReply { msg_id: id }
    }
}

impl CtrlMsg {
    /// Whether every count field equals the length of what it counts.
    pub fn is_well_formed(&self) -> (r: bool)
        ensures
            r == self@.wf(),
    {
        match self {
            CtrlMsg::InvalidMsg { len, description, .. } => *len as usize == description.len(),
            CtrlMsg::QueryReply { health, .. } => health_is_well_formed(health),
            CtrlMsg::I2CScanReply { ndev, payload, .. } => *ndev as usize == payload.len(),
            CtrlMsg::I2CWrite { len, payload, .. } => *len as usize == payload.len(),
            CtrlMsg::I2CWriteReg { len, payload, .. } => *len as usize == payload.len(),
            CtrlMsg::I2CReadReply { len, payload, .. } => *len as usize == payload.len(),
            CtrlMsg::I2CReadRegReply { len, payload, .. } => *len as usize == payload.len(),
            CtrlMsg::VGACtrl { nvga, gains, .. } => *nvga as usize == gains.len(),
            _ => true,
        }
    }

    /// The word-aligned part of the wire image.
    fn words_of(&self) -> (r: Vec<u32>)
        ensures
            r@ == words(self@),
    {
        let r = match self {
            CtrlMsg::InvalidMsg { msg_id, err_code, len, .. } => vec![
                MAGIC_INVALID,
                *msg_id,
                *err_code,
                *len,
            ],
            CtrlMsg::Query { msg_id } => vec![MAGIC_QUERY, *msg_id],
            CtrlMsg::QueryReply {
                msg_id,
                fm_ver,
                tick_cnt1,
                tick_cnt2,
                trans_state,
                locked,
                health,
            } => {
                let mut r = vec![
                    MAGIC_QUERY_REPLY,
                    *msg_id,
                    *fm_ver,
                    *tick_cnt1,
                    *tick_cnt2,
                    *trans_state,
                    *locked,
                ];
                let hw = health_words_of(health);
                append_words(&mut r, &hw);
                r
            },
            CtrlMsg::Sync { msg_id } => vec![MAGIC_SYNC, *msg_id],
            CtrlMsg::SyncReply { msg_id } => vec![MAGIC_SYNC_REPLY, *msg_id],
            CtrlMsg::XGbeCfg { msg_id, .. } => vec![MAGIC_XGBE_CFG, *msg_id],
            CtrlMsg::XgbeCfgReply { msg_id } => vec![MAGIC_XGBE_CFG_REPLY, *msg_id],
            CtrlMsg::I2CScan { msg_id } => vec![MAGIC_I2C_SCAN, *msg_id],
            CtrlMsg::I2CScanReply { msg_id, ndev, .. } => vec![
                MAGIC_I2C_SCAN_REPLY,
                *msg_id,
                *ndev,
            ],
            CtrlMsg::I2CWrite { msg_id, dev_addr, len, .. } => vec![
                MAGIC_I2C_WRITE,
                *msg_id,
                *dev_addr,
                *len,
            ],
            CtrlMsg::I2CWriteReply { msg_id, err_code } => vec![
                MAGIC_I2C_WRITE_REPLY,
                *msg_id,
                *err_code,
            ],
            CtrlMsg::I2CWriteReg { msg_id, dev_addr, reg_addr, len, .. } => vec![
                MAGIC_I2C_WRITE_REG,
                *msg_id,
                *dev_addr,
                *reg_addr,
                *len,
            ],
            CtrlMsg::I2CWriteRegReply { msg_id, err_code } => vec![
                MAGIC_I2C_WRITE_REG_REPLY,
                *msg_id,
                *err_code,
            ],
            CtrlMsg::I2CRead { msg_id, dev_addr, nbytes } => vec![
                MAGIC_I2C_READ,
                *msg_id,
                *dev_addr,
                *nbytes,
            ],
            CtrlMsg::I2CReadReply { msg_id, err_code, len, .. } => vec![
                MAGIC_I2C_READ_REPLY,
                *msg_id,
                *err_code,
                *len,
            ],
            CtrlMsg::I2CReadReg { msg_id, dev_addr, reg_addr, nbytes } => vec![
                MAGIC_I2C_READ_REG,
                *msg_id,
                *dev_addr,
                *reg_addr,
                *nbytes,
            ],
            CtrlMsg::I2CReadRegReply { msg_id, err_code, len, .. } => vec![
                MAGIC_I2C_READ_REG_REPLY,
                *msg_id,
                *err_code,
                *len,
            ],
            CtrlMsg::StreamStart { msg_id } => vec![MAGIC_STREAM_START, *msg_id],
            CtrlMsg::StreamStartReply { msg_id } => vec![MAGIC_STREAM_START_REPLY, *msg_id],
            CtrlMsg::StreamStop { msg_id } => vec![MAGIC_STREAM_STOP, *msg_id],
            CtrlMsg::StreamStopReply { msg_id } => vec![MAGIC_STREAM_STOP_REPLY, *msg_id],
            CtrlMsg::VGACtrl { msg_id, nvga, gains } => {
                let mut r = vec![MAGIC_VGA_CTRL, *msg_id, *nvga];
                append_words(&mut r, gains);
                r
            },
            CtrlMsg::VGACtrlReply { msg_id, err_code } => vec![
                MAGIC_VGA_CTRL_REPLY,
                *msg_id,
                *err_code,
            ],
            CtrlMsg::PwrCtrl { msg_id, op_code } => vec![MAGIC_PWR_CTRL, *msg_id, *op_code],
            CtrlMsg::PwrCtrlReply { msg_id } => vec![MAGIC_PWR_CTRL_REPLY, *msg_id],
            CtrlMsg::Init { msg_id, reserved_zeros } => vec![MAGIC_INIT, *msg_id, *reserved_zeros],
            CtrlMsg::InitReply { msg_id } => vec![MAGIC_INIT_REPLY, *msg_id],
        };
        assert(r@ =~= words(self@));
        r
    }

    /// The wire image of the message. A message whose count fields disagree
    /// with its sequences has none and gives `LengthMismatch`.
    pub fn encode(&self) -> (r: Result<Vec<u8>, CodecError>)
        ensures
            self@.wf() ==> (r matches Ok(v) && v@ == encode_spec(self@)),
            !self@.wf() ==> r == Err::<Vec<u8>, CodecError>(CodecError::LengthMismatch),
    {
        if !self.is_well_formed() {
            return Err(CodecError::LengthMismatch);
        }
        let ws = self.words_of();
        let mut out: Vec<u8> = Vec::new();
        put_words(&mut out, ws.as_slice());
        match self {
            CtrlMsg::InvalidMsg { description, .. } => put_bytes(&mut out, description.as_slice()),
            CtrlMsg::XGbeCfg { cfg, .. } => put_cfgs(&mut out, cfg),
            CtrlMsg::I2CScanReply { payload, .. } => put_bytes(&mut out, payload.as_slice()),
            CtrlMsg::I2CWrite { payload, .. } => put_bytes(&mut out, payload.as_slice()),
            CtrlMsg::I2CWriteReg { payload, .. } => put_bytes(&mut out, payload.as_slice()),
            CtrlMsg::I2CReadReply { payload, .. } => put_bytes(&mut out, payload.as_slice()),
            CtrlMsg::I2CReadRegReply { payload, .. } => put_bytes(&mut out, payload.as_slice()),
            _ => {},
        }
        assert(out@ =~= encode_spec(self@));
        Ok(out)
    }

    /// Reads the message whose frame starts `b`; bytes after the frame are
    /// ignored. Never reads past the end of `b`, whatever its counts say.
    pub fn decode(b: &[u8]) -> (r: Result<CtrlMsg, CodecError>)
        ensures
            decoded(r) == parse(b@),
    {
        let len = b.len();
        if len < 4 {
            return Err(CodecError::Truncated);
        }
        let magic = read_word(b, 0);
        if !is_known_magic(magic) {
            return Err(CodecError::UnknownMagic);
        }
        let head = head_words_of(magic);
        if len < 4 * head {
            return Err(CodecError::Truncated);
        }
        if magic == MAGIC_QUERY_REPLY {
            let hm = read_word(b, 7);
            if hm != MAGIC_HL_HEALTH && hm != MAGIC_TE_HEALTH {
                return Err(CodecError::UnknownMagic);
            }
        }
        let body = body_len_of(b);
        if (len as u64) < 4 * (head as u64) + body {
            return Err(CodecError::Truncated);
        }
        Ok(build_msg(b))
    }
}

} // verus!
