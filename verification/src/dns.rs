//! DNS message decoding (stateless). A message is a fixed 12-byte header
//! (id, flags, four count fields) followed by that many question and
//! resource-record entries, whose names use label encoding with
//! compression pointers. A payload either decodes completely or is
//! malformed: there is no partial outcome for this protocol.

use vstd::prelude::*;
use crate::bytes::{spec_u16_be, spec_u32_be};
use crate::outcome::MalformedReason;

verus! {

/// How many compression pointers one name may follow. Legitimate names
/// need a handful; the cap rejects pointer loops.
pub const DNS_MAX_POINTER_JUMPS: usize = 64;

/// How long the dotted text form of a name may grow.
pub const DNS_MAX_NAME_LEN: usize = 255;

/// One entry of the question section.
#[derive(Debug, Clone)]
pub struct DnsQuestion {
    pub name: Vec<u8>,
    pub qtype: u16,
    pub qclass: u16,
}

/// Mathematical model of a question entry.
pub struct DnsQuestionModel {
    pub name: Seq<u8>,
    pub qtype: u16,
    pub qclass: u16,
}

impl View for DnsQuestion {
    type V = DnsQuestionModel;

    open spec fn view(&self) -> DnsQuestionModel {
        DnsQuestionModel { name: self.name@, qtype: self.qtype, qclass: self.qclass }
    }
}

/// One entry of the answer, authority or additional section.
#[derive(Debug, Clone)]
pub struct DnsResourceRecord {
    pub name: Vec<u8>,
    pub rtype: u16,
    pub rclass: u16,
    pub ttl: u32,
    pub data: Vec<u8>,
}

/// Mathematical model of a resource record.
pub struct DnsResourceRecordModel {
    pub name: Seq<u8>,
    pub rtype: u16,
    pub rclass: u16,
    pub ttl: u32,
    pub data: Seq<u8>,
}

impl View for DnsResourceRecord {
    type V = DnsResourceRecordModel;

    open spec fn view(&self) -> DnsResourceRecordModel {
        DnsResourceRecordModel {
            name: self.name@,
            rtype: self.rtype,
            rclass: self.rclass,
            ttl: self.ttl,
            data: self.data@,
        }
    }
}

/// A decoded DNS message.
#[derive(Debug, Clone)]
pub struct SerializableDnsPacket {
    pub id: u16,
    pub flags: u16,
    pub questions: Vec<DnsQuestion>,
    pub answers: Vec<DnsResourceRecord>,
    pub authorities: Vec<DnsResourceRecord>,
    pub additionals: Vec<DnsResourceRecord>,
}

/// Mathematical model of a decoded DNS message.
pub struct DnsPacketModel {
    pub id: u16,
    pub flags: u16,
    pub questions: Seq<DnsQuestionModel>,
    pub answers: Seq<DnsResourceRecordModel>,
    pub authorities: Seq<DnsResourceRecordModel>,
    pub additionals: Seq<DnsResourceRecordModel>,
}

/// The models of a list of questions.
pub open spec fn questions_model(s: Seq<DnsQuestion>) -> Seq<DnsQuestionModel> {
    s.map_values(|q: DnsQuestion| q@)
}

/// The models of a list of resource records.
pub open spec fn records_model(s: Seq<DnsResourceRecord>) -> Seq<DnsResourceRecordModel> {
    s.map_values(|r: DnsResourceRecord| r@)
}

impl View for SerializableDnsPacket {
    type V = DnsPacketModel;

    open spec fn view(&self) -> DnsPacketModel {
        DnsPacketModel {
            id: self.id,
            flags: self.flags,
            questions: questions_model(self.questions@),
            answers: records_model(self.answers@),
            authorities: records_model(self.authorities@),
            additionals: records_model(self.additionals@),
        }
    }
}

/// The dotted name read from position `pos`, and the position just past
/// it in the enclosing entry (past the terminating zero byte, or past the
/// first compression pointer). `acc` is the length of the name prefix
/// already assembled by enclosing labels; `jumps` bounds the pointers
/// still allowed.
pub open spec fn spec_dns_name_at(b: Seq<u8>, pos: int, acc: int, jumps: int) -> Result<
    (Seq<u8>, int),
    MalformedReason,
>
    decreases jumps, b.len() - pos,
{
    if pos < 0 || pos >= b.len() {
        Err(MalformedReason::DnsBadName)
    } else {
        let c = b[pos];
        if c == 0 {
            Ok((Seq::empty(), pos + 1))
        } else if c < 64 {
            let add: int = if acc == 0 {
                c as int
            } else {
                c + 1
            };
            if pos + 1 + c > b.len() {
                Err(MalformedReason::DnsBadName)
            } else if acc + add > DNS_MAX_NAME_LEN {
                Err(MalformedReason::DnsBadName)
            } else {
                let label = b.subrange(pos + 1, pos + 1 + c);
                match spec_dns_name_at(b, pos + 1 + c, acc + add, jumps) {
                    Ok((rest, end)) => if rest.len() == 0 {
                        Ok((label, end))
                    } else {
                        Ok((label + seq![46u8] + rest, end))
                    },
                    Err(e) => Err(e),
                }
            }
        } else if c >= 192 {
            if pos + 2 > b.len() {
                Err(MalformedReason::DnsBadName)
            } else if jumps <= 0 {
                Err(MalformedReason::DnsBadName)
            } else {
                let target = (c - 192) * 256 + b[pos + 1];
                match spec_dns_name_at(b, target, acc, jumps - 1) {
                    Ok((rest, _)) => Ok((rest, pos + 2)),
                    Err(e) => Err(e),
                }
            }
        } else {
            Err(MalformedReason::DnsBadName)
        }
    }
}

/// The dotted name starting at `pos`, with the standard jump budget.
pub open spec fn spec_dns_name(b: Seq<u8>, pos: int) -> Result<(Seq<u8>, int), MalformedReason> {
    spec_dns_name_at(b, pos, 0, DNS_MAX_POINTER_JUMPS as int)
}

/// The question entries read from `pos` on, and the position past them.
pub open spec fn spec_dns_questions(b: Seq<u8>, pos: int, count: int) -> Result<
    (Seq<DnsQuestionModel>, int),
    MalformedReason,
>
    decreases count,
{
    if count <= 0 {
        Ok((Seq::empty(), pos))
    } else {
        match spec_dns_name(b, pos) {
            Err(e) => Err(e),
            Ok((name, end)) => if end + 4 > b.len() {
                Err(MalformedReason::DnsTruncated)
            } else {
                let q = DnsQuestionModel {
                    name,
                    qtype: spec_u16_be(b[end], b[end + 1]),
                    qclass: spec_u16_be(b[end + 2], b[end + 3]),
                };
                match spec_dns_questions(b, end + 4, count - 1) {
                    Ok((rest, fin)) => Ok((seq![q] + rest, fin)),
                    Err(e) => Err(e),
                }
            },
        }
    }
}

/// The resource records read from `pos` on, and the position past them.
pub open spec fn spec_dns_records(b: Seq<u8>, pos: int, count: int) -> Result<
    (Seq<DnsResourceRecordModel>, int),
    MalformedReason,
>
    decreases count,
{
    if count <= 0 {
        Ok((Seq::empty(), pos))
    } else {
        match spec_dns_name(b, pos) {
            Err(e) => Err(e),
            Ok((name, end)) => if end + 10 > b.len() {
                Err(MalformedReason::DnsTruncated)
            } else {
                let rdlength = spec_u16_be(b[end + 8], b[end + 9]) as int;
                if end + 10 + rdlength > b.len() {
                    Err(MalformedReason::DnsTruncated)
                } else {
                    let r = DnsResourceRecordModel {
                        name,
                        rtype: spec_u16_be(b[end], b[end + 1]),
                        rclass: spec_u16_be(b[end + 2], b[end + 3]),
                        ttl: spec_u32_be(b[end + 4], b[end + 5], b[end + 6], b[end + 7]),
                        data: b.subrange(end + 10, end + 10 + rdlength),
                    };
                    match spec_dns_records(b, end + 10 + rdlength, count - 1) {
                        Ok((rest, fin)) => Ok((seq![r] + rest, fin)),
                        Err(e) => Err(e),
                    }
                }
            },
        }
    }
}

/// What decoding a payload yields: the header fields and as many
/// questions and records as the count fields declare, or the first
/// framing error. A payload shorter than the 12-byte header is malformed.
pub open spec fn spec_decode_dns(b: Seq<u8>) -> Result<DnsPacketModel, MalformedReason> {
    if b.len() < 12 {
        Err(MalformedReason::DnsTooShort)
    } else {
        let qdcount = spec_u16_be(b[4], b[5]) as int;
        let ancount = spec_u16_be(b[6], b[7]) as int;
        let nscount = spec_u16_be(b[8], b[9]) as int;
        let arcount = spec_u16_be(b[10], b[11]) as int;
        match spec_dns_questions(b, 12, qdcount) {
            Err(e) => Err(e),
            Ok((questions, p1)) => match spec_dns_records(b, p1, ancount) {
                Err(e) => Err(e),
                Ok((answers, p2)) => match spec_dns_records(b, p2, nscount) {
                    Err(e) => Err(e),
                    Ok((authorities, p3)) => match spec_dns_records(b, p3, arcount) {
                        Err(e) => Err(e),
                        Ok((additionals, _)) => Ok(DnsPacketModel {
                            id: spec_u16_be(b[0], b[1]),
                            flags: spec_u16_be(b[2], b[3]),
                            questions,
                            answers,
                            authorities,
                            additionals,
                        }),
                    },
                },
            },
        }
    }
}

fn parse_name_at(b: &[u8], pos: usize, acc: usize, jumps: usize) -> (r: Result<
    (Vec<u8>, usize),
    MalformedReason,
>)
    requires
        acc <= DNS_MAX_NAME_LEN,
    ensures
        match r {
            Ok((name, end)) => spec_dns_name_at(b@, pos as int, acc as int, jumps as int)
                matches Ok((n, e)) && name@ == n && end == e && end <= b@.len(),
            Err(e) => spec_dns_name_at(b@, pos as int, acc as int, jumps as int) == Err::<
                (Seq<u8>, int),
                MalformedReason,
            >(e),
        },
    decreases jumps, b@.len() - pos,
{
    if pos >= b.len() {
        return Err(MalformedReason::DnsBadName);
    }
    let c = *vstd::slice::slice_index_get(b, pos);
    if c == 0 {
        Ok((Vec::new(), pos + 1))
    } else if c < 64 {
        let add: usize = if acc == 0 {
            c as usize
        } else {
            c as usize + 1
        };
        if c as usize > b.len() - (pos + 1) {
            return Err(MalformedReason::DnsBadName);
        }
        if add > DNS_MAX_NAME_LEN - acc {
            return Err(MalformedReason::DnsBadName);
        }
        let mut label = vstd::slice::slice_to_vec(
            vstd::slice::slice_subrange(b, pos + 1, pos + 1 + c as usize),
        );
        match parse_name_at(b, pos + 1 + c as usize, acc + add, jumps) {
            Ok((mut rest, end)) => {
                if rest.len() == 0 {
                    Ok((label, end))
                } else {
                    let ghost label0 = label@;
                    label.push(46u8);
                    label.append(&mut rest);
                    proof {
                        assert(label@ =~= label0 + seq![46u8]
                            + spec_dns_name_at(b@, pos + 1 + c, acc + add, jumps as int).unwrap().0);
                    }
                    Ok((label, end))
                }
            },
            Err(e) => Err(e),
        }
    } else if c >= 192 {
        if b.len() - pos < 2 {
            return Err(MalformedReason::DnsBadName);
        }
        if jumps == 0 {
            return Err(MalformedReason::DnsBadName);
        }
        let c2 = *vstd::slice::slice_index_get(b, pos + 1);
        let target: usize = (c as usize - 192) * 256 + c2 as usize;
        match parse_name_at(b, target, acc, jumps - 1) {
            Ok((rest, _)) => Ok((rest, pos + 2)),
            Err(e) => Err(e),
        }
    } else {
        Err(MalformedReason::DnsBadName)
    }
}

fn parse_questions(b: &[u8], start: usize, count: u16) -> (r: Result<
    (Vec<DnsQuestion>, usize),
    MalformedReason,
>)
    requires
        start <= b@.len(),
    ensures
        match r {
            Ok((qs, end)) => spec_dns_questions(b@, start as int, count as int) matches Ok(
                (s, e),
            ) && questions_model(qs@) == s && end == e && end <= b@.len(),
            Err(e) => spec_dns_questions(b@, start as int, count as int) == Err::<
                (Seq<DnsQuestionModel>, int),
                MalformedReason,
            >(e),
        },
{
    let n = b.len();
    let mut qs: Vec<DnsQuestion> = Vec::new();
    let mut pos = start;
    let mut k: u16 = 0;
    proof {
        let r0 = spec_dns_questions(b@, start as int, count as int);
        if r0 is Ok {
            assert(questions_model(qs@) + r0.unwrap().0 =~= r0.unwrap().0);
        }
    }
    while k < count
        invariant
            n == b@.len(),
            k <= count,
            pos <= n,
            spec_dns_questions(b@, start as int, count as int) == (match spec_dns_questions(
                b@,
                pos as int,
                count - k,
            ) {
                Ok((rest, e)) => Ok::<(Seq<DnsQuestionModel>, int), MalformedReason>(
                    (questions_model(qs@) + rest, e),
                ),
                Err(e) => Err::<(Seq<DnsQuestionModel>, int), MalformedReason>(e),
            }),
        decreases count - k,
    {
        let (name, end) = match parse_name_at(b, pos, 0, DNS_MAX_POINTER_JUMPS) {
            Ok(p) => p,
            Err(e) => {
                return Err(e);
            },
        };
        if n - end < 4 {
            return Err(MalformedReason::DnsTruncated);
        }
        let qtype: u16 = (*vstd::slice::slice_index_get(b, end) as u16) * 256 + (
        *vstd::slice::slice_index_get(b, end + 1) as u16);
        let qclass: u16 = (*vstd::slice::slice_index_get(b, end + 2) as u16) * 256 + (
        *vstd::slice::slice_index_get(b, end + 3) as u16);
        let q = DnsQuestion { name, qtype, qclass };
        proof {
            let qm = q@;
            let tail = spec_dns_questions(b@, end + 4, count - k - 1);
            if tail is Ok {
                assert(questions_model(qs@.push(q)) =~= questions_model(qs@).push(qm));
                assert(questions_model(qs@) + (seq![qm] + tail.unwrap().0) =~= questions_model(
                    qs@.push(q),
                ) + tail.unwrap().0);
            }
        }
        qs.push(q);
        pos = end + 4;
        k += 1;
    }
    proof {
        assert(questions_model(qs@) + Seq::<DnsQuestionModel>::empty() =~= questions_model(qs@));
    }
    Ok((qs, pos))
}

fn parse_records(b: &[u8], start: usize, count: u16) -> (r: Result<
    (Vec<DnsResourceRecord>, usize),
    MalformedReason,
>)
    requires
        start <= b@.len(),
    ensures
        match r {
            Ok((rs, end)) => spec_dns_records(b@, start as int, count as int) matches Ok((s, e))
                && records_model(rs@) == s && end == e && end <= b@.len(),
            Err(e) => spec_dns_records(b@, start as int, count as int) == Err::<
                (Seq<DnsResourceRecordModel>, int),
                MalformedReason,
            >(e),
        },
{
    let n = b.len();
    let mut rs: Vec<DnsResourceRecord> = Vec::new();
    let mut pos = start;
    let mut k: u16 = 0;
    proof {
        let r0 = spec_dns_records(b@, start as int, count as int);
        if r0 is Ok {
            assert(records_model(rs@) + r0.unwrap().0 =~= r0.unwrap().0);
        }
    }
    while k < count
        invariant
            n == b@.len(),
            k <= count,
            pos <= n,
            spec_dns_records(b@, start as int, count as int) == (match spec_dns_records(
                b@,
                pos as int,
                count - k,
            ) {
                Ok((rest, e)) => Ok::<(Seq<DnsResourceRecordModel>, int), MalformedReason>(
                    (records_model(rs@) + rest, e),
                ),
                Err(e) => Err::<(Seq<DnsResourceRecordModel>, int), MalformedReason>(e),
            }),
        decreases count - k,
    {
        let (name, end) = match parse_name_at(b, pos, 0, DNS_MAX_POINTER_JUMPS) {
            Ok(p) => p,
            Err(e) => {
                return Err(e);
            },
        };
        if n - end < 10 {
            return Err(MalformedReason::DnsTruncated);
        }
        let rtype: u16 = (*vstd::slice::slice_index_get(b, end) as u16) * 256 + (
        *vstd::slice::slice_index_get(b, end + 1) as u16);
        let rclass: u16 = (*vstd::slice::slice_index_get(b, end + 2) as u16) * 256 + (
        *vstd::slice::slice_index_get(b, end + 3) as u16);
        let ttl: u32 = (*vstd::slice::slice_index_get(b, end + 4) as u32) * 0x1000000 + (
        *vstd::slice::slice_index_get(b, end + 5) as u32) * 0x10000 + (
        *vstd::slice::slice_index_get(b, end + 6) as u32) * 0x100 + (*vstd::slice::slice_index_get(
            b,
            end + 7,
        ) as u32);
        let rdlength: u16 = (*vstd::slice::slice_index_get(b, end + 8) as u16) * 256 + (
        *vstd::slice::slice_index_get(b, end + 9) as u16);
        if rdlength as usize > n - (end + 10) {
            return Err(MalformedReason::DnsTruncated);
        }
        let data = vstd::slice::slice_to_vec(
            vstd::slice::slice_subrange(b, end + 10, end + 10 + rdlength as usize),
        );
        let rec = DnsResourceRecord { name, rtype, rclass, ttl, data };
        proof {
            let rm = rec@;
            let tail = spec_dns_records(b@, end + 10 + rdlength, count - k - 1);
            if tail is Ok {
                assert(records_model(rs@.push(rec)) =~= records_model(rs@).push(rm));
                assert(records_model(rs@) + (seq![rm] + tail.unwrap().0) =~= records_model(
                    rs@.push(rec),
                ) + tail.unwrap().0);
            }
        }
        rs.push(rec);
        pos = end + 10 + rdlength as usize;
        k += 1;
    }
    proof {
        assert(records_model(rs@) + Seq::<DnsResourceRecordModel>::empty() =~= records_model(rs@));
    }
    Ok((rs, pos))
}

/// Decode a single complete DNS datagram: the fixed header, then the
/// declared number of question and resource-record entries, with
/// compression-aware name decoding. A malformed payload yields the first
/// framing error and never a partial record.
pub fn decode_dns(payload: &[u8]) -> (r: Result<SerializableDnsPacket, MalformedReason>)
    ensures
        match r {
            Ok(msg) => spec_decode_dns(payload@) matches Ok(m) && msg@ == m,
            Err(e) => spec_decode_dns(payload@) == Err::<DnsPacketModel, MalformedReason>(e),
        },
        payload@.len() < 12 ==> r == Err::<SerializableDnsPacket, MalformedReason>(
            MalformedReason::DnsTooShort,
        ),
{
    if payload.len() < 12 {
        return Err(MalformedReason::DnsTooShort);
    }
    let id: u16 = (*vstd::slice::slice_index_get(payload, 0) as u16) * 256 + (
    *vstd::slice::slice_index_get(payload, 1) as u16);
    let flags: u16 = (*vstd::slice::slice_index_get(payload, 2) as u16) * 256 + (
    *vstd::slice::slice_index_get(payload, 3) as u16);
    let qdcount: u16 = (*vstd::slice::slice_index_get(payload, 4) as u16) * 256 + (
    *vstd::slice::slice_index_get(payload, 5) as u16);
    let ancount: u16 = (*vstd::slice::slice_index_get(payload, 6) as u16) * 256 + (
    *vstd::slice::slice_index_get(payload, 7) as u16);
    let nscount: u16 = (*vstd::slice::slice_index_get(payload, 8) as u16) * 256 + (
    *vstd::slice::slice_index_get(payload, 9) as u16);
    let arcount: u16 = (*vstd::slice::slice_index_get(payload, 10) as u16) * 256 + (
    *vstd::slice::slice_index_get(payload, 11) as u16);
    let (questions, p1) = match parse_questions(payload, 12, qdcount) {
        Ok(p) => p,
        Err(e) => {
            return Err(e);
        },
    };
    let (answers, p2) = match parse_records(payload, p1, ancount) {
        Ok(p) => p,
        Err(e) => {
            return Err(e);
        },
    };
    let (authorities, p3) = match parse_records(payload, p2, nscount) {
        Ok(p) => p,
        Err(e) => {
            return Err(e);
        },
    };
    let (additionals, _) = match parse_records(payload, p3, arcount) {
        Ok(p) => p,
        Err(e) => {
            return Err(e);
        },
    };
    Ok(SerializableDnsPacket { id, flags, questions, answers, authorities, additionals })
}

} // verus!
