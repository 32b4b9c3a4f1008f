use crate::error::{ErrorCode, H2Error, Result};
use crate::frame::header::{
    decode_header_result, flag_bits, flags_of, frame_header_bytes, has_flag, lemma_flag_bits,
    lemma_flags_view, lemma_header_roundtrip, lemma_top_bit, lemma_u16_be_roundtrip,
    lemma_u32_be_roundtrip, push_u16_be, push_u32_be, read_u16_be, read_u32_be, u16_be_bytes,
    u16_from_be, u32_be_bytes, u32_from_be, Flags, FrameHeader, FrameType, DEFAULT_MAX_FRAME_SIZE,
    FRAME_HEADER_LEN, MAX_MAX_FRAME_SIZE,
};
use vstd::prelude::*;

verus! {

/// Known SETTINGS parameters (RFC 9113 §6.5.2).
#[derive(Debug, Clone, Copy, PartialEq, Eq)]
pub enum SettingId {
    HeaderTableSize,
    EnablePush,
    MaxConcurrentStreams,
    InitialWindowSize,
    MaxFrameSize,
    MaxHeaderListSize,
    Unknown(u16),
}

/// The setting that a 16-bit identifier names; identifiers without a name
/// are kept as `Unknown`.
pub open spec fn setting_id_of(v: u16) -> SettingId {
    if v == 0x1 {
        SettingId::HeaderTableSize
    } else if v == 0x2 {
        SettingId::EnablePush
    } else if v == 0x3 {
        SettingId::MaxConcurrentStreams
    } else if v == 0x4 {
        SettingId::InitialWindowSize
    } else if v == 0x5 {
        SettingId::MaxFrameSize
    } else if v == 0x6 {
        SettingId::MaxHeaderListSize
    } else {
        SettingId::Unknown(v)
    }
}

/// The 16-bit identifier of a setting.
pub open spec fn setting_id_value(id: SettingId) -> u16 {
    match id {
        SettingId::HeaderTableSize => 0x1,
        SettingId::EnablePush => 0x2,
        SettingId::MaxConcurrentStreams => 0x3,
        SettingId::InitialWindowSize => 0x4,
        SettingId::MaxFrameSize => 0x5,
        SettingId::MaxHeaderListSize => 0x6,
        SettingId::Unknown(v) => v,
    }
}

/// A setting identifier is canonical when decoding its value gives it
/// back: every named one is, and `Unknown(v)` is when `v` names none.
pub open spec fn setting_id_canonical(id: SettingId) -> bool {
    match id {
        SettingId::Unknown(v) => v == 0 || v > 0x6,
        _ => true,
    }
}

impl SettingId {
    pub fn from_u16(v: u16) -> (id: Self)
        ensures
            id == setting_id_of(v),
    {
        match v {
            0x1 => SettingId::HeaderTableSize,
            0x2 => SettingId::EnablePush,
            0x3 => SettingId::MaxConcurrentStreams,
            0x4 => SettingId::InitialWindowSize,
            0x5 => SettingId::MaxFrameSize,
            0x6 => SettingId::MaxHeaderListSize,
            other => SettingId::Unknown(other),
        }
    }

    pub fn as_u16(self) -> (v: u16)
        ensures
            v == setting_id_value(self),
    {
        match self {
            SettingId::HeaderTableSize => 0x1,
            SettingId::EnablePush => 0x2,
            SettingId::MaxConcurrentStreams => 0x3,
            SettingId::InitialWindowSize => 0x4,
            SettingId::MaxFrameSize => 0x5,
            SettingId::MaxHeaderListSize => 0x6,
            SettingId::Unknown(v) => v,
        }
    }
}

/// Reading a setting identifier and writing it back gives the same value.
pub proof fn lemma_setting_id_value_roundtrip(v: u16)
    ensures
        setting_id_value(setting_id_of(v)) == v,
{
}

/// Writing a canonical setting identifier and reading it back gives it.
pub proof fn lemma_setting_id_roundtrip(id: SettingId)
    requires
        setting_id_canonical(id),
    ensures
        setting_id_of(setting_id_value(id)) == id,
{
}

#[derive(Debug, Clone, Copy, PartialEq, Eq)]
pub struct Setting {
    pub id: SettingId,
    pub value: u32,
}

/// The error for a setting whose value is outside what RFC 9113 §6.5.2
/// allows for its identifier, if it is.
pub open spec fn setting_error(s: Setting) -> Option<H2Error> {
    match s.id {
        SettingId::EnablePush => if s.value > 1 {
            Some(H2Error::Connection(ErrorCode::ProtocolError, "SETTINGS_ENABLE_PUSH must be 0 or 1"))
        } else {
            None
        },
        SettingId::InitialWindowSize => if s.value > 0x7fff_ffff {
            Some(
                H2Error::Connection(
                    ErrorCode::FlowControlError,
                    "SETTINGS_INITIAL_WINDOW_SIZE exceeds maximum flow-control window",
                ),
            )
        } else {
            None
        },
        SettingId::MaxFrameSize => if !(DEFAULT_MAX_FRAME_SIZE <= s.value <= MAX_MAX_FRAME_SIZE) {
            Some(
                H2Error::Connection(
                    ErrorCode::ProtocolError,
                    "SETTINGS_MAX_FRAME_SIZE out of allowed range",
                ),
            )
        } else {
            None
        },
        _ => None,
    }
}

/// The six octets of one setting: its identifier, then its value.
pub open spec fn setting_bytes(s: Setting) -> Seq<u8> {
    u16_be_bytes(setting_id_value(s.id)) + u32_be_bytes(s.value)
}

/// The octets of a list of settings, one after the other.
pub open spec fn settings_bytes(ss: Seq<Setting>) -> Seq<u8>
    decreases ss.len(),
{
    if ss.len() == 0 {
        Seq::empty()
    } else {
        settings_bytes(ss.drop_last()) + setting_bytes(ss.last())
    }
}

/// The setting in the six octets of `payload` from `6 * k`.
pub open spec fn setting_at(payload: Seq<u8>, k: int) -> Setting {
    Setting {
        id: setting_id_of(u16_from_be(payload.skip(6 * k))),
        value: u32_from_be(payload.skip(6 * k + 2)),
    }
}

/// Decoding the first `n` settings of `payload`: the list, or the error of
/// the first setting with a value out of range.
pub open spec fn decode_settings_list(payload: Seq<u8>, n: nat) -> Result<Seq<Setting>>
    decreases n,
{
    if n == 0 {
        Ok(Seq::empty())
    } else {
        match decode_settings_list(payload, (n - 1) as nat) {
            Err(e) => Err(e),
            Ok(ss) => match setting_error(setting_at(payload, n - 1)) {
                Some(e) => Err(e),
                None => Ok(ss.push(setting_at(payload, n - 1))),
            },
        }
    }
}

/// SETTINGS frame (RFC 9113 §6.5). Always associated with stream 0.
#[derive(Debug, Clone, PartialEq, Eq)]
pub struct SettingsFrame {
    pub ack: bool,
    pub settings: Vec<Setting>,
}

/// A SETTINGS frame with its settings as a sequence.
pub struct SettingsFrameView {
    pub ack: bool,
    pub settings: Seq<Setting>,
}

impl View for SettingsFrame {
    type V = SettingsFrameView;

    open spec fn view(&self) -> SettingsFrameView {
        SettingsFrameView { ack: self.ack, settings: self.settings@ }
    }
}

/// The header that `encode` writes for a SETTINGS frame.
pub open spec fn settings_frame_header(f: SettingsFrameView) -> FrameHeader {
    FrameHeader {
        length: (f.settings.len() * 6) as u32,
        frame_type: FrameType::Settings,
        flags: flags_of(flag_bits(f.ack, false, false)),
        stream_id: 0,
    }
}

/// The encoding of a SETTINGS frame.
pub open spec fn settings_frame_bytes(f: SettingsFrameView) -> Seq<u8> {
    frame_header_bytes(settings_frame_header(f)) + settings_bytes(f.settings)
}

/// What decoding a SETTINGS frame body gives.
pub open spec fn decode_settings_result(header: FrameHeader, payload: Seq<u8>) -> Result<
    SettingsFrameView,
> {
    if header.stream_id != 0 {
        Err(H2Error::Connection(ErrorCode::ProtocolError, "SETTINGS frame must be on stream 0"))
    } else if has_flag(header.flags@, 1) {
        if header.length != 0 {
            Err(H2Error::Connection(ErrorCode::FrameSizeError, "SETTINGS ACK must be empty"))
        } else {
            Ok(SettingsFrameView { ack: true, settings: Seq::empty() })
        }
    } else if header.length % 6 != 0 {
        Err(
            H2Error::Connection(
                ErrorCode::FrameSizeError,
                "SETTINGS frame length must be a multiple of 6",
            ),
        )
    } else if payload.len() != header.length {
        Err(H2Error::Incomplete)
    } else {
        match decode_settings_list(payload, (payload.len() / 6) as nat) {
            Err(e) => Err(e),
            Ok(ss) => Ok(SettingsFrameView { ack: false, settings: ss }),
        }
    }
}

/// A SETTINGS frame that survives encoding: an acknowledgement carries no
/// settings, every identifier is canonical and every value in range, and
/// the payload fits a frame.
pub open spec fn settings_frame_wf(f: SettingsFrameView) -> bool {
    &&& f.ack ==> f.settings.len() == 0
    &&& f.settings.len() * 6 <= MAX_MAX_FRAME_SIZE
    &&& forall|i: int|
        #![trigger f.settings[i]]
        0 <= i < f.settings.len() ==> setting_id_canonical(f.settings[i].id) && setting_error(
            f.settings[i],
        ) is None
}

impl SettingsFrame {
    pub fn ack() -> (f: Self)
        ensures
            f.ack,
            f.settings@ == Seq::<Setting>::empty(),
    {
        SettingsFrame { ack: true, settings: Vec::new() }
    }

    pub fn new(settings: Vec<Setting>) -> (f: Self)
        ensures
            !f.ack,
            f.settings == settings,
    {
        SettingsFrame { ack: false, settings }
    }

    pub fn encode(&self, out: &mut Vec<u8>)
        requires
            self.settings.len() * 6 <= MAX_MAX_FRAME_SIZE,
        ensures
            final(out)@ == old(out)@ + settings_frame_bytes(self@),
    {
        let flags = if self.ack {
            Flags::ack()
        } else {
            Flags::none()
        };
        proof {
            lemma_flag_bits(self.ack, false, false);
            lemma_flags_view(flags, 0);
            lemma_top_bit(0);
        }
        let length = self.settings.len() as u32 * 6;
        let header = FrameHeader::new(length, FrameType::Settings, flags, 0);
        header.encode(out);
        let ghost start = out@;
        let mut i: usize = 0;
        while i < self.settings.len()
            invariant
                i <= self.settings.len(),
                out@ == start + settings_bytes(self.settings@.take(i as int)),
            decreases self.settings.len() - i,
        {
            let s = self.settings[i];
            push_u16_be(out, s.id.as_u16());
            push_u32_be(out, s.value);
            proof {
                assert(self.settings@.take(i + 1).drop_last() =~= self.settings@.take(i as int));
                assert(out@ =~= start + settings_bytes(self.settings@.take(i + 1)));
            }
            i = i + 1;
        }
        assert(self.settings@.take(i as int) =~= self.settings@);
        assert(out@ =~= old(out)@ + settings_frame_bytes(self@));
    }

    pub fn decode(header: &FrameHeader, payload: &[u8]) -> (r: Result<Self>)
        ensures
            match decode_settings_result(*header, payload@) {
                Ok(v) => r matches Ok(f) && f@ == v,
                Err(e) => r == Err::<SettingsFrame, H2Error>(e),
            },
    {
        if header.stream_id != 0 {
            return Err(
                H2Error::Connection(ErrorCode::ProtocolError, "SETTINGS frame must be on stream 0"),
            );
        }
        let ack = header.flags.contains(Flags::ack());
        if ack {
            if header.length != 0 {
                return Err(
                    H2Error::Connection(ErrorCode::FrameSizeError, "SETTINGS ACK must be empty"),
                );
            }
            return Ok(SettingsFrame { ack: true, settings: Vec::new() });
        }
        if header.length % 6 != 0 {
            return Err(
                H2Error::Connection(
                    ErrorCode::FrameSizeError,
                    "SETTINGS frame length must be a multiple of 6",
                ),
            );
        }
        if payload.len() != header.length as usize {
            return Err(H2Error::Incomplete);
        }
        let count = payload.len() / 6;
        let mut settings: Vec<Setting> = Vec::with_capacity(count);
        let mut k: usize = 0;
        while k < count
            invariant
                k <= count,
                count == payload@.len() / 6,
                6 * count <= payload@.len(),
                payload@.len() == header.length,
                decode_settings_list(payload@, k as nat) == Ok::<Seq<Setting>, H2Error>(
                    settings@,
                ),
                decode_settings_result(*header, payload@) == (match decode_settings_list(
                    payload@,
                    count as nat,
                ) {
                    Err(e) => Err(e),
                    Ok(ss) => Ok(SettingsFrameView { ack: false, settings: ss }),
                }),
            decreases count - k,
        {
            let id = SettingId::from_u16(read_u16_be(payload, 6 * k));
            let value = read_u32_be(payload, 6 * k + 2);
            let setting = Setting { id, value };
            assert(setting == setting_at(payload@, k as int));
            if let Some(e) = check_setting(setting) {
                proof {
                    lemma_settings_error_persists(payload@, k as nat, e, count as nat);
                }
                return Err(e);
            }
            settings.push(setting);
            k = k + 1;
        }
        Ok(SettingsFrame { ack: false, settings })
    }
}

/// The error for `s`, if its value is out of range for its identifier.
fn check_setting(s: Setting) -> (r: Option<H2Error>)
    ensures
        r == setting_error(s),
{
    match s.id {
        SettingId::EnablePush => {
            if s.value > 1 {
                return Some(
                    H2Error::Connection(ErrorCode::ProtocolError, "SETTINGS_ENABLE_PUSH must be 0 or 1"),
                );
            }
        },
        SettingId::InitialWindowSize => {
            if s.value > 0x7fff_ffff {
                return Some(
                    H2Error::Connection(
                        ErrorCode::FlowControlError,
                        "SETTINGS_INITIAL_WINDOW_SIZE exceeds maximum flow-control window",
                    ),
                );
            }
        },
        SettingId::MaxFrameSize => {
            if !(DEFAULT_MAX_FRAME_SIZE <= s.value && s.value <= MAX_MAX_FRAME_SIZE) {
                return Some(
                    H2Error::Connection(
                        ErrorCode::ProtocolError,
                        "SETTINGS_MAX_FRAME_SIZE out of allowed range",
                    ),
                );
            }
        },
        _ => {},
    }
    None
}

/// Once the setting at `k` is out of range, decoding any longer prefix
/// fails with its error.
proof fn lemma_settings_error_persists(payload: Seq<u8>, k: nat, e: H2Error, n: nat)
    requires
        decode_settings_list(payload, k) is Ok,
        setting_error(setting_at(payload, k as int)) == Some(e),
        k < n,
    ensures
        decode_settings_list(payload, n) == Err::<Seq<Setting>, H2Error>(e),
    decreases n,
{
    if n > k + 1 {
        lemma_settings_error_persists(payload, k, e, (n - 1) as nat);
    }
}

proof fn lemma_settings_bytes_len(ss: Seq<Setting>)
    ensures
        settings_bytes(ss).len() == 6 * ss.len(),
    decreases ss.len(),
{
    if ss.len() > 0 {
        lemma_settings_bytes_len(ss.drop_last());
    }
}

proof fn lemma_settings_decode(ss: Seq<Setting>, rest: Seq<u8>)
    requires
        forall|i: int|
            #![trigger ss[i]]
            0 <= i < ss.len() ==> setting_id_canonical(ss[i].id) && setting_error(ss[i]) is None,
    ensures
        decode_settings_list(settings_bytes(ss) + rest, ss.len()) == Ok::<Seq<Setting>, H2Error>(ss),
    decreases ss.len(),
{
    if ss.len() > 0 {
        let pre = ss.drop_last();
        let s = ss.last();
        let sb = setting_bytes(s);
        let all = settings_bytes(ss) + rest;
        assert forall|i: int| #![trigger pre[i]] 0 <= i < pre.len() implies setting_id_canonical(
            pre[i].id,
        ) && setting_error(pre[i]) is None by {
            assert(pre[i] == ss[i]);
        }
        lemma_settings_bytes_len(pre);
        assert(all =~= settings_bytes(pre) + (sb + rest));
        lemma_settings_decode(pre, sb + rest);
        let k = pre.len() as int;
        assert(all.skip(6 * k) =~= sb + rest);
        lemma_u16_be_roundtrip(setting_id_value(s.id), u32_be_bytes(s.value) + rest);
        assert(sb + rest =~= u16_be_bytes(setting_id_value(s.id)) + (u32_be_bytes(s.value) + rest));
        assert(all.skip(6 * k + 2) =~= u32_be_bytes(s.value) + rest);
        lemma_u32_be_roundtrip(s.value, rest);
        assert(ss[ss.len() - 1] == s);
        lemma_setting_id_roundtrip(s.id);
        assert(setting_at(all, k) == s);
        assert(pre.push(s) =~= ss);
        assert(setting_error(setting_at(all, k)) is None);
        assert(decode_settings_list(all, ss.len()) == Ok::<Seq<Setting>, H2Error>(pre.push(s)));
    } else {
        assert(ss =~= Seq::<Setting>::empty());
    }
}

/// Decoding the encoding of a well-formed SETTINGS frame gives it back.
pub proof fn lemma_settings_roundtrip(f: SettingsFrameView)
    requires
        settings_frame_wf(f),
    ensures
        decode_header_result(settings_frame_bytes(f)) == Ok::<FrameHeader, H2Error>(
            settings_frame_header(f),
        ),
        decode_settings_result(
            settings_frame_header(f),
            settings_frame_bytes(f).skip(FRAME_HEADER_LEN as int),
        ) == Ok::<SettingsFrameView, H2Error>(f),
{
    let h = settings_frame_header(f);
    let body = settings_bytes(f.settings);
    lemma_settings_bytes_len(f.settings);
    lemma_header_roundtrip(h, body);
    lemma_flag_bits(f.ack, false, false);
    lemma_flags_view(h.flags, flag_bits(f.ack, false, false));
    if f.ack {
        assert(f.settings =~= Seq::<Setting>::empty());
    } else {
        lemma_settings_decode(f.settings, Seq::empty());
        assert(body + Seq::<u8>::empty() =~= body);
        assert(body.len() / 6 == f.settings.len());
    }
}

/// Every setting whose value is within the range RFC 9113 §6.5.2 allows
/// for its identifier is accepted: ENABLE_PUSH 0 or 1, INITIAL_WINDOW_SIZE
/// up to 2^31 - 1, MAX_FRAME_SIZE from 2^14 to 2^24 - 1, any value for the
/// others. A SETTINGS frame made of such settings decodes to them, in order.
pub proof fn lemma_settings_in_range_accepted(ss: Seq<Setting>)
    requires
        ss.len() * 6 <= 16777215,
        forall|i: int|
            #![trigger ss[i]]
            0 <= i < ss.len() ==> {
                &&& setting_id_canonical(ss[i].id)
                &&& ss[i].id == SettingId::EnablePush ==> ss[i].value <= 1
                &&& ss[i].id == SettingId::InitialWindowSize ==> ss[i].value <= 0x7fff_ffff
                &&& ss[i].id == SettingId::MaxFrameSize ==> 16384 <= ss[i].value <= 16777215
            },
    ensures
        decode_settings_result(
            FrameHeader {
                length: (ss.len() * 6) as u32,
                frame_type: FrameType::Settings,
                flags: flags_of(0),
                stream_id: 0,
            },
            settings_bytes(ss),
        ) == Ok::<SettingsFrameView, H2Error>(SettingsFrameView { ack: false, settings: ss }),
{
    assert forall|i: int| #![trigger ss[i]] 0 <= i < ss.len() implies setting_id_canonical(
        ss[i].id,
    ) && setting_error(ss[i]) is None by {}
    lemma_settings_bytes_len(ss);
    lemma_settings_decode(ss, Seq::empty());
    assert(settings_bytes(ss) + Seq::<u8>::empty() =~= settings_bytes(ss));
    lemma_flags_view(flags_of(0), 0);
    assert(0u8 & 1u8 == 0) by (bit_vector);
    let n = ss.len();
    assert((n * 6) % 6 == 0 && (n * 6) / 6 == n) by (nonlinear_arith);
    let h = FrameHeader {
        length: (ss.len() * 6) as u32,
        frame_type: FrameType::Settings,
        flags: flags_of(0),
        stream_id: 0,
    };
    assert(h.length == n * 6);
    assert(!has_flag(h.flags@, 1));
    assert(settings_bytes(ss).len() / 6 == ss.len());
}

/// A setting outside its RFC 9113 §6.5.2 range is a connection error: a
/// FLOW_CONTROL_ERROR for an initial window size above 2^31 - 1, and a
/// PROTOCOL_ERROR for ENABLE_PUSH above 1 or a maximum frame size outside
/// 2^14 to 2^24 - 1.
pub proof fn lemma_setting_out_of_range_rejected(s: Setting)
    ensures
        s.id == SettingId::InitialWindowSize && s.value > 0x7fff_ffff ==> setting_error(s) matches Some(
            H2Error::Connection(ErrorCode::FlowControlError, _),
        ),
        s.id == SettingId::EnablePush && s.value > 1 ==> setting_error(s) matches Some(
            H2Error::Connection(ErrorCode::ProtocolError, _),
        ),
        s.id == SettingId::MaxFrameSize && (s.value < 16384 || s.value > 16777215) ==> setting_error(
            s,
        ) matches Some(H2Error::Connection(ErrorCode::ProtocolError, _)),
{
}

/// The setting identifiers are those of RFC 9113 §6.5.2, both ways; any
/// other identifier is kept as `Unknown`.
pub proof fn lemma_setting_id_registry(v: u16)
    ensures
        setting_id_value(SettingId::HeaderTableSize) == 0x1,
        setting_id_value(SettingId::EnablePush) == 0x2,
        setting_id_value(SettingId::MaxConcurrentStreams) == 0x3,
        setting_id_value(SettingId::InitialWindowSize) == 0x4,
        setting_id_value(SettingId::MaxFrameSize) == 0x5,
        setting_id_value(SettingId::MaxHeaderListSize) == 0x6,
        setting_id_of(0x1) == SettingId::HeaderTableSize,
        setting_id_of(0x2) == SettingId::EnablePush,
        setting_id_of(0x3) == SettingId::MaxConcurrentStreams,
        setting_id_of(0x4) == SettingId::InitialWindowSize,
        setting_id_of(0x5) == SettingId::MaxFrameSize,
        setting_id_of(0x6) == SettingId::MaxHeaderListSize,
        (v == 0 || v > 0x6) ==> setting_id_of(v) == SettingId::Unknown(v) && setting_id_value(
            SettingId::Unknown(v),
        ) == v,
{
}

} // verus!
