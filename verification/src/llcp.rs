//! Link Layer Control Protocol messages and their wire format.

use vstd::prelude::*;
use vstd::bytes::{lemma_auto_spec_u64_to_from_le_bytes, spec_u64_from_le_bytes, spec_u64_to_le_bytes, u64_from_le_bytes, u64_to_le_bytes};
use vstd::slice::slice_subrange;
use crate::bytes::{append_bytes, hi8, le16_at, le_bytes, lemma_bytes_of_le16, lemma_le16_of_bytes, lo8, read_u16, write_u16};
use crate::error::Error;

verus! {

/// Opcode of `LL_TERMINATE_IND`.
pub const OPCODE_TERMINATE_IND: u8 = 0x02;
/// Opcode of `LL_UNKNOWN_RSP`.
pub const OPCODE_UNKNOWN_RSP: u8 = 0x07;
/// Opcode of `LL_FEATURE_REQ`.
pub const OPCODE_FEATURE_REQ: u8 = 0x08;
/// Opcode of `LL_FEATURE_RSP`.
pub const OPCODE_FEATURE_RSP: u8 = 0x09;
/// Opcode of `LL_VERSION_IND`.
pub const OPCODE_VERSION_IND: u8 = 0x0C;
/// Opcode of `LL_CONNECTION_PARAM_REQ`.
pub const OPCODE_CONNECTION_PARAM_REQ: u8 = 0x0F;
/// Opcode of `LL_CONNECTION_PARAM_RSP`.
pub const OPCODE_CONNECTION_PARAM_RSP: u8 = 0x10;

/// Number of bytes in the encoding of a `ConnectionParamRequest`.
pub const CONNECTION_PARAM_SIZE: usize = 23;

/// Parameters of a connection parameter request or response, in wire units.
#[derive(Copy, Clone, Debug, PartialEq, Eq, Structural)]
pub struct ConnectionParamRequest {
    pub interval_min: u16,
    pub interval_max: u16,
    pub slave_latency: u16,
    pub supervision_timeout: u16,
    pub preferred_periodicity: u8,
    pub reference_conn_event_count: u16,
    pub offset0: u16,
    pub offset1: u16,
    pub offset2: u16,
    pub offset3: u16,
    pub offset4: u16,
    pub offset5: u16,
}

impl ConnectionParamRequest {
    /// The bytes that carry these parameters: every field little-endian, in
    /// declaration order.
    pub open spec fn encoding(self) -> Seq<u8> {
        le_bytes(self.interval_min) + le_bytes(self.interval_max) + le_bytes(self.slave_latency)
            + le_bytes(self.supervision_timeout) + seq![self.preferred_periodicity] + le_bytes(
            self.reference_conn_event_count,
        ) + le_bytes(self.offset0) + le_bytes(self.offset1) + le_bytes(self.offset2) + le_bytes(
            self.offset3,
        ) + le_bytes(self.offset4) + le_bytes(self.offset5)
    }

    /// The parameters that a 23-byte field carries.
    pub open spec fn decoding(bytes: Seq<u8>) -> ConnectionParamRequest
        recommends
            bytes.len() == CONNECTION_PARAM_SIZE,
    {
        ConnectionParamRequest {
            interval_min: le16_at(bytes, 0),
            interval_max: le16_at(bytes, 2),
            slave_latency: le16_at(bytes, 4),
            supervision_timeout: le16_at(bytes, 6),
            preferred_periodicity: bytes[8],
            reference_conn_event_count: le16_at(bytes, 9),
            offset0: le16_at(bytes, 11),
            offset1: le16_at(bytes, 13),
            offset2: le16_at(bytes, 15),
            offset3: le16_at(bytes, 17),
            offset4: le16_at(bytes, 19),
            offset5: le16_at(bytes, 21),
        }
    }

    /// The encoding is the listed 23 bytes, one after the other.
    pub proof fn lemma_encoding_bytes(self)
        ensures
            self.encoding().len() == CONNECTION_PARAM_SIZE,
            self.encoding() =~= seq![
                lo8(self.interval_min),
                hi8(self.interval_min),
                lo8(self.interval_max),
                hi8(self.interval_max),
                lo8(self.slave_latency),
                hi8(self.slave_latency),
                lo8(self.supervision_timeout),
                hi8(self.supervision_timeout),
                self.preferred_periodicity,
                lo8(self.reference_conn_event_count),
                hi8(self.reference_conn_event_count),
                lo8(self.offset0),
                hi8(self.offset0),
                lo8(self.offset1),
                hi8(self.offset1),
                lo8(self.offset2),
                hi8(self.offset2),
                lo8(self.offset3),
                hi8(self.offset3),
                lo8(self.offset4),
                hi8(self.offset4),
                lo8(self.offset5),
                hi8(self.offset5),
            ],
    {
    }

    /// Decoding what encoding produced gives the parameters back, and the
    /// encoding has the advertised size.
    pub proof fn lemma_round_trip(self)
        ensures
            self.encoding().len() == CONNECTION_PARAM_SIZE,
            Self::decoding(self.encoding()) == self,
    {
        self.lemma_encoding_bytes();
        lemma_le16_of_bytes(self.interval_min);
        lemma_le16_of_bytes(self.interval_max);
        lemma_le16_of_bytes(self.slave_latency);
        lemma_le16_of_bytes(self.supervision_timeout);
        lemma_le16_of_bytes(self.reference_conn_event_count);
        lemma_le16_of_bytes(self.offset0);
        lemma_le16_of_bytes(self.offset1);
        lemma_le16_of_bytes(self.offset2);
        lemma_le16_of_bytes(self.offset3);
        lemma_le16_of_bytes(self.offset4);
        lemma_le16_of_bytes(self.offset5);
    }

    /// Encoding what decoding read gives the bytes back.
    pub proof fn lemma_decoding_encodes(bytes: Seq<u8>)
        requires
            bytes.len() == CONNECTION_PARAM_SIZE,
        ensures
            Self::decoding(bytes).encoding() == bytes,
    {
        let p = Self::decoding(bytes);
        p.lemma_encoding_bytes();
        assert forall|i: int| 0 <= i < 23 implies p.encoding()[i] == bytes[i] by {
            lemma_bytes_of_le16(bytes[0], bytes[1]);
            lemma_bytes_of_le16(bytes[2], bytes[3]);
            lemma_bytes_of_le16(bytes[4], bytes[5]);
            lemma_bytes_of_le16(bytes[6], bytes[7]);
            lemma_bytes_of_le16(bytes[9], bytes[10]);
            lemma_bytes_of_le16(bytes[11], bytes[12]);
            lemma_bytes_of_le16(bytes[13], bytes[14]);
            lemma_bytes_of_le16(bytes[15], bytes[16]);
            lemma_bytes_of_le16(bytes[17], bytes[18]);
            lemma_bytes_of_le16(bytes[19], bytes[20]);
            lemma_bytes_of_le16(bytes[21], bytes[22]);
        }
        assert(p.encoding() =~= bytes);
    }

    /// Number of bytes that `to_bytes` appends.
    pub fn encoded_size(&self) -> (r: usize)
        ensures
            r == CONNECTION_PARAM_SIZE,
            r == self.encoding().len(),
    {
        proof {
            self.lemma_encoding_bytes();
        }
        CONNECTION_PARAM_SIZE
    }

    /// Appends the encoding of these parameters to `out`.
    pub fn to_bytes(&self, out: &mut Vec<u8>)
        ensures
            final(out)@ == old(out)@ + self.encoding(),
            final(out)@.len() == old(out)@.len() + CONNECTION_PARAM_SIZE,
    {
        write_u16(out, self.interval_min);
        write_u16(out, self.interval_max);
        write_u16(out, self.slave_latency);
        write_u16(out, self.supervision_timeout);
        out.push(self.preferred_periodicity);
        write_u16(out, self.reference_conn_event_count);
        write_u16(out, self.offset0);
        write_u16(out, self.offset1);
        write_u16(out, self.offset2);
        write_u16(out, self.offset3);
        write_u16(out, self.offset4);
        write_u16(out, self.offset5);
        proof {
            self.lemma_encoding_bytes();
            assert(out@ =~= old(out)@ + self.encoding());
        }
    }

    /// Reads parameters from exactly 23 bytes; any other length is refused.
    pub fn from_bytes(bytes: &[u8]) -> (r: Result<ConnectionParamRequest, Error>)
        ensures
            bytes@.len() == CONNECTION_PARAM_SIZE ==> r == Ok::<ConnectionParamRequest, Error>(
                Self::decoding(bytes@),
            ),
            bytes@.len() != CONNECTION_PARAM_SIZE ==> r == Err::<ConnectionParamRequest, Error>(
                Error::InvalidLength,
            ),
    {
        if bytes.len() != CONNECTION_PARAM_SIZE {
            return Err(Error::InvalidLength);
        }
        Ok(
            ConnectionParamRequest {
                interval_min: read_u16(bytes, 0),
                interval_max: read_u16(bytes, 2),
                slave_latency: read_u16(bytes, 4),
                supervision_timeout: read_u16(bytes, 6),
                preferred_periodicity: bytes[8],
                reference_conn_event_count: read_u16(bytes, 9),
                offset0: read_u16(bytes, 11),
                offset1: read_u16(bytes, 13),
                offset2: read_u16(bytes, 15),
                offset3: read_u16(bytes, 17),
                offset4: read_u16(bytes, 19),
                offset5: read_u16(bytes, 21),
            },
        )
    }
}

/// A Link Layer control message.
#[derive(Clone, Debug, PartialEq, Eq)]
pub enum ControlPdu {
    /// The peer ends the connection.
    TerminateInd { error_code: u8 },
    /// Rejection of a control message whose opcode the receiver does not handle.
    UnknownRsp { unknown_type: u8 },
    /// Start of the feature exchange.
    FeatureReq { features: u64 },
    /// Answer to a feature exchange.
    FeatureRsp { features: u64 },
    /// Version exchange.
    VersionInd { vers_nr: u8, comp_id: u16, sub_vers_nr: u16 },
    /// Request to change the connection parameters.
    ConnectionParamReq(ConnectionParamRequest),
    /// Answer to a connection parameter request.
    ConnectionParamRsp(ConnectionParamRequest),
    /// A message with an opcode that has no variant of its own.
    Unknown { opcode: u8, ctr_data: Vec<u8> },
}

/// Number of bytes that follow the opcode of a message with a variant of its
/// own; `None` for every other opcode.
pub open spec fn ctr_data_size(opcode: u8) -> Option<nat> {
    if opcode == OPCODE_TERMINATE_IND || opcode == OPCODE_UNKNOWN_RSP {
        Some(1nat)
    } else if opcode == OPCODE_FEATURE_REQ || opcode == OPCODE_FEATURE_RSP {
        Some(8nat)
    } else if opcode == OPCODE_VERSION_IND {
        Some(5nat)
    } else if opcode == OPCODE_CONNECTION_PARAM_REQ || opcode == OPCODE_CONNECTION_PARAM_RSP {
        Some(CONNECTION_PARAM_SIZE as nat)
    } else {
        None
    }
}

/// Whether the real-time part of the link layer answers messages with this
/// opcode itself, so that none may reach the responder.
pub open spec fn handled_by_real_time(opcode: u8) -> bool {
    opcode == OPCODE_FEATURE_REQ || opcode == OPCODE_VERSION_IND
}

/// Whether `bytes` is the encoding of a control message: an opcode, followed
/// by as many bytes as the opcode calls for.
pub open spec fn decodable(bytes: Seq<u8>) -> bool {
    bytes.len() >= 1 && match ctr_data_size(bytes[0]) {
        Some(n) => bytes.len() == 1 + n,
        None => true,
    }
}

/// Tells whether the real-time part answers messages with this opcode.
pub fn is_handled_by_real_time(opcode: u8) -> (r: bool)
    ensures
        r == handled_by_real_time(opcode),
{
    opcode == OPCODE_FEATURE_REQ || opcode == OPCODE_VERSION_IND
}

impl ControlPdu {
    /// The opcode that announces this message.
    pub open spec fn opcode_value(&self) -> u8 {
        match self {
            ControlPdu::TerminateInd { .. } => OPCODE_TERMINATE_IND,
            ControlPdu::UnknownRsp { .. } => OPCODE_UNKNOWN_RSP,
            ControlPdu::FeatureReq { .. } => OPCODE_FEATURE_REQ,
            ControlPdu::FeatureRsp { .. } => OPCODE_FEATURE_RSP,
            ControlPdu::VersionInd { .. } => OPCODE_VERSION_IND,
            ControlPdu::ConnectionParamReq(_) => OPCODE_CONNECTION_PARAM_REQ,
            ControlPdu::ConnectionParamRsp(_) => OPCODE_CONNECTION_PARAM_RSP,
            ControlPdu::Unknown { opcode, .. } => *opcode,
        }
    }

    /// The bytes that follow the opcode.
    pub open spec fn ctr_data(&self) -> Seq<u8> {
        match self {
            ControlPdu::TerminateInd { error_code } => seq![*error_code],
            ControlPdu::UnknownRsp { unknown_type } => seq![*unknown_type],
            ControlPdu::FeatureReq { features } => spec_u64_to_le_bytes(*features),
            ControlPdu::FeatureRsp { features } => spec_u64_to_le_bytes(*features),
            ControlPdu::VersionInd { vers_nr, comp_id, sub_vers_nr } => seq![*vers_nr] + le_bytes(
                *comp_id,
            ) + le_bytes(*sub_vers_nr),
            ControlPdu::ConnectionParamReq(params) => params.encoding(),
            ControlPdu::ConnectionParamRsp(params) => params.encoding(),
            ControlPdu::Unknown { ctr_data, .. } => ctr_data@,
        }
    }

    /// The message on the wire: the opcode, then its data.
    pub open spec fn encoding(&self) -> Seq<u8> {
        seq![self.opcode_value()] + self.ctr_data()
    }

    /// `Unknown` is used only for opcodes that have no variant of their own.
    pub open spec fn canonical(&self) -> bool {
        self is Unknown ==> ctr_data_size(self.opcode_value()) is None
    }

    /// The fields of this message are the ones that `bytes` holds.
    pub open spec fn read_from(&self, bytes: Seq<u8>) -> bool {
        let data = bytes.subrange(1, bytes.len() as int);
        match self {
            ControlPdu::TerminateInd { error_code } => *error_code == data[0],
            ControlPdu::UnknownRsp { unknown_type } => *unknown_type == data[0],
            ControlPdu::FeatureReq { features } => *features == spec_u64_from_le_bytes(data),
            ControlPdu::FeatureRsp { features } => *features == spec_u64_from_le_bytes(data),
            ControlPdu::VersionInd { vers_nr, comp_id, sub_vers_nr } => {
                &&& *vers_nr == data[0]
                &&& *comp_id == le16_at(data, 1)
                &&& *sub_vers_nr == le16_at(data, 3)
            },
            ControlPdu::ConnectionParamReq(params) => *params == ConnectionParamRequest::decoding(
                data,
            ),
            ControlPdu::ConnectionParamRsp(params) => *params == ConnectionParamRequest::decoding(
                data,
            ),
            ControlPdu::Unknown { opcode, ctr_data } => *opcode == bytes[0] && ctr_data@ == data,
        }
    }

    /// Every message with a variant of its own has the size that its opcode
    /// calls for, so every canonical message can be decoded again.
    pub proof fn lemma_encoding_decodable(&self)
        requires
            self.canonical(),
        ensures
            decodable(self.encoding()),
            self.encoding()[0] == self.opcode_value(),
            self.encoding().len() == 1 + self.ctr_data().len(),
    {
        lemma_auto_spec_u64_to_from_le_bytes();
        match self {
            ControlPdu::ConnectionParamReq(params) => params.lemma_encoding_bytes(),
            ControlPdu::ConnectionParamRsp(params) => params.lemma_encoding_bytes(),
            _ => {},
        }
    }

    /// The opcode that announces this message.
    pub fn opcode(&self) -> (r: u8)
        ensures
            r == self.opcode_value(),
    {
        match self {
            ControlPdu::TerminateInd { .. } => OPCODE_TERMINATE_IND,
            ControlPdu::UnknownRsp { .. } => OPCODE_UNKNOWN_RSP,
            ControlPdu::FeatureReq { .. } => OPCODE_FEATURE_REQ,
            ControlPdu::FeatureRsp { .. } => OPCODE_FEATURE_RSP,
            ControlPdu::VersionInd { .. } => OPCODE_VERSION_IND,
            ControlPdu::ConnectionParamReq(_) => OPCODE_CONNECTION_PARAM_REQ,
            ControlPdu::ConnectionParamRsp(_) => OPCODE_CONNECTION_PARAM_RSP,
            ControlPdu::Unknown { opcode, .. } => *opcode,
        }
    }

    /// Number of bytes in the encoding, the opcode included.
    pub fn encoded_size(&self) -> (r: usize)
        requires
            self.encoding().len() <= usize::MAX,
        ensures
            r == self.encoding().len(),
    {
        proof {
            lemma_auto_spec_u64_to_from_le_bytes();
        }
        match self {
            ControlPdu::TerminateInd { .. } => 2,
            ControlPdu::UnknownRsp { .. } => 2,
            ControlPdu::FeatureReq { .. } => 9,
            ControlPdu::FeatureRsp { .. } => 9,
            ControlPdu::VersionInd { .. } => 6,
            ControlPdu::ConnectionParamReq(params) => 1 + params.encoded_size(),
            ControlPdu::ConnectionParamRsp(params) => 1 + params.encoded_size(),
            ControlPdu::Unknown { ctr_data, .. } => 1 + ctr_data.len(),
        }
    }

    /// Encodes the message.
    pub fn to_bytes(&self) -> (r: Vec<u8>)
        ensures
            r@ == self.encoding(),
    {
        let mut out: Vec<u8> = Vec::new();
        out.push(self.opcode());
        match self {
            ControlPdu::TerminateInd { error_code } => {
                out.push(*error_code);
            },
            ControlPdu::UnknownRsp { unknown_type } => {
                out.push(*unknown_type);
            },
            ControlPdu::FeatureReq { features } => {
                let mut field = u64_to_le_bytes(*features);
                out.append(&mut field);
            },
            ControlPdu::FeatureRsp { features } => {
                let mut field = u64_to_le_bytes(*features);
                out.append(&mut field);
            },
            ControlPdu::VersionInd { vers_nr, comp_id, sub_vers_nr } => {
                out.push(*vers_nr);
                write_u16(&mut out, *comp_id);
                write_u16(&mut out, *sub_vers_nr);
            },
            ControlPdu::ConnectionParamReq(params) => {
                params.to_bytes(&mut out);
            },
            ControlPdu::ConnectionParamRsp(params) => {
                params.to_bytes(&mut out);
            },
            ControlPdu::Unknown { ctr_data, .. } => {
                append_bytes(&mut out, ctr_data.as_slice());
            },
        }
        assert(out@ =~= self.encoding());
        out
    }

    /// Decodes a control message. Succeeds exactly on the encodings of
    /// messages, and returns the canonical message with that encoding.
    pub fn from_bytes(bytes: &[u8]) -> (r: Result<ControlPdu, Error>)
        ensures
            r is Ok <==> decodable(bytes@),
            match r {
                Ok(pdu) => pdu.encoding() == bytes@ && pdu.canonical() && pdu.read_from(bytes@),
                Err(e) => e == Error::InvalidLength,
            },
    {
        if bytes.len() < 1 {
            return Err(Error::InvalidLength);
        }
        let opcode: u8 = bytes[0];
        let data = slice_subrange(bytes, 1, bytes.len());
        proof {
            lemma_auto_spec_u64_to_from_le_bytes();
        }
        if opcode == OPCODE_TERMINATE_IND || opcode == OPCODE_UNKNOWN_RSP {
            if data.len() != 1 {
                return Err(Error::InvalidLength);
            }
            let pdu = if opcode == OPCODE_TERMINATE_IND {
                ControlPdu::TerminateInd { error_code: data[0] }
            } else {
                ControlPdu::UnknownRsp { unknown_type: data[0] }
            };
            assert(pdu.encoding() =~= bytes@);
            Ok(pdu)
        } else if opcode == OPCODE_FEATURE_REQ || opcode == OPCODE_FEATURE_RSP {
            if data.len() != 8 {
                return Err(Error::InvalidLength);
            }
            let features = u64_from_le_bytes(data);
            let pdu = if opcode == OPCODE_FEATURE_REQ {
                ControlPdu::FeatureReq { features }
            } else {
                ControlPdu::FeatureRsp { features }
            };
            assert(pdu.encoding() =~= bytes@);
            Ok(pdu)
        } else if opcode == OPCODE_VERSION_IND {
            if data.len() != 5 {
                return Err(Error::InvalidLength);
            }
            let pdu = ControlPdu::VersionInd {
                vers_nr: data[0],
                comp_id: read_u16(data, 1),
                sub_vers_nr: read_u16(data, 3),
            };
            proof {
                lemma_bytes_of_le16(data@[1], data@[2]);
                lemma_bytes_of_le16(data@[3], data@[4]);
                assert(pdu.encoding() =~= bytes@);
            }
            Ok(pdu)
        } else if opcode == OPCODE_CONNECTION_PARAM_REQ || opcode == OPCODE_CONNECTION_PARAM_RSP {
            match ConnectionParamRequest::from_bytes(data) {
                Ok(params) => {
                    let pdu = if opcode == OPCODE_CONNECTION_PARAM_REQ {
                        ControlPdu::ConnectionParamReq(params)
                    } else {
                        ControlPdu::ConnectionParamRsp(params)
                    };
                    proof {
                        ConnectionParamRequest::lemma_decoding_encodes(data@);
                        assert(pdu.encoding() =~= bytes@);
                    }
                    Ok(pdu)
                },
                Err(e) => Err(e),
            }
        } else {
            let mut ctr_data: Vec<u8> = Vec::new();
            append_bytes(&mut ctr_data, data);
            let pdu = ControlPdu::Unknown { opcode, ctr_data };
            assert(pdu.encoding() =~= bytes@);
            Ok(pdu)
        }
    }
}

} // verus!
