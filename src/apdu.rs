//! ISO 7816-4 command APDUs and the response state machine of an exchange.
use vstd::prelude::*;

verus! {

/// A command APDU.
#[derive(Debug, PartialEq, Eq, Clone, Copy)]
pub struct ADPUCommand<'a> {
    /// Command class.
    pub cla: u8,
    /// Command instruction.
    pub ins: u8,
    /// First parameter byte.
    pub p1: u8,
    /// Second parameter byte.
    pub p2: u8,
    /// Command data, at most 65535 bytes.
    pub data: &'a [u8],
    /// Number of bytes expected in the response, at most 65536.
    pub ne: u32,
}

impl<'a> ADPUCommand<'a> {
    /// Encodes the command; `None` where the data or Ne is too large.
    pub fn encode(&self) -> (r: Option<Vec<u8>>)
        ensures
            match r {
                Some(b) => apdu_valid(*self) && b@ == apdu_bytes(*self),
                None => !apdu_valid(*self),
            },
    {
        let nc = self.data.len();
        if nc > 65535 || self.ne > 65536 {
            return None;
        }
        let mut raw: Vec<u8> = Vec::new();
        raw.push(self.cla);
        raw.push(self.ins);
        raw.push(self.p1);
        raw.push(self.p2);
        if nc == 0 {
        } else if nc <= 255 {
            raw.push(nc as u8);
        } else {
            raw.push(0u8);
            raw.push((nc / 256) as u8);
            raw.push((nc % 256) as u8);
        }
        let ghost before_data = raw@;
        let mut i: usize = 0;
        while i < nc
            invariant
                nc == self.data@.len(),
                i <= nc,
                raw@ == before_data + self.data@.subrange(0, i as int),
            decreases nc - i,
        {
            raw.push(self.data[i]);
            proof {
                assert(self.data@.subrange(0, i + 1) =~= self.data@.subrange(0, i as int).push(
                    self.data@[i as int],
                ));
            }
            i += 1;
        }
        let ne = self.ne;
        if ne == 0 {
        } else if ne <= 256 {
            raw.push((ne % 256) as u8);
        } else {
            if nc <= 255 {
                raw.push(0u8);
            }
            raw.push(((ne % 65536) / 256) as u8);
            raw.push((ne % 256) as u8);
        }
        proof {
            assert(self.data@.subrange(0, nc as int) =~= self.data@);
            assert(raw@ =~= apdu_bytes(*self));
        }
        Some(raw)
    }

    /// SELECT by name.
    pub fn select(aid: &'a [u8]) -> (r: ADPUCommand<'a>)
        ensures
            r == (ADPUCommand { cla: 0x00, ins: 0xa4, p1: 0x04, p2: 0x00, data: aid, ne: 0x100 }),
    {
        ADPUCommand { cla: 0x00, ins: 0xa4, p1: 0x04, p2: 0x00, data: aid, ne: 0x100 }
    }

    /// READ RECORD `record` of the file `sfi`.
    pub fn read_record(sfi: u8, record: u8) -> (r: ADPUCommand<'static>)
        requires
            sfi < 32,
        ensures
            r.cla == 0x00 && r.ins == 0xb2 && r.p1 == record && r.p2 == sfi * 8 + 4,
            r.data@.len() == 0 && r.ne == 0x100,
    {
        proof {
            assert((sfi << 3u8) | 0x04 == sfi * 8 + 4) by (bit_vector)
                requires
                    sfi < 32,
            ;
        }
        ADPUCommand {
            cla: 0x00,
            ins: 0xb2,
            p1: record,
            p2: (sfi << 3u8) | 0x04,
            data: &[],
            ne: 0x100,
        }
    }

    /// GET PROCESSING OPTIONS with the encoded PDOL data.
    pub fn get_processing_options(pdol: &'a [u8]) -> (r: ADPUCommand<'a>)
        ensures
            r == (ADPUCommand { cla: 0x80, ins: 0xa8, p1: 0x00, p2: 0x00, data: pdol, ne: 0x100 }),
    {
        ADPUCommand { cla: 0x80, ins: 0xa8, p1: 0x00, p2: 0x00, data: pdol, ne: 0x100 }
    }

    /// INTERNAL AUTHENTICATE with the encoded DDOL data.
    pub fn internal_authenticate(ddol: &'a [u8]) -> (r: ADPUCommand<'a>)
        ensures
            r == (ADPUCommand { cla: 0x00, ins: 0x88, p1: 0x00, p2: 0x00, data: ddol, ne: 0x100 }),
    {
        ADPUCommand { cla: 0x00, ins: 0x88, p1: 0x00, p2: 0x00, data: ddol, ne: 0x100 }
    }
}

/// Where an exchange stands after a reply.
#[derive(Debug, PartialEq, Eq, Structural, Clone, Copy)]
pub enum Stage {
    /// The command itself was sent.
    Command,
    /// The command was sent again with the Ne the card asked for.
    Resent,
    /// A GET RESPONSE was sent.
    Continuation,
}

/// What an exchange does next.
#[derive(Debug, PartialEq, Eq)]
pub enum Next {
    /// Transmit these bytes; the reply belongs to the given stage.
    Send(Vec<u8>, Stage),
    /// The exchange is over with this status word.
    Finished(u16),
}

/// Why an exchange failed.
#[derive(Debug, PartialEq, Eq, Clone, Copy)]
pub enum ExchangeError {
    /// The command cannot be encoded.
    Unencodable,
    /// A reply shorter than the two status bytes.
    ReplyTooShort(usize),
}

/// GET RESPONSE for `le` bytes.
pub open spec fn get_response_bytes(le: u8) -> Seq<u8> {
    seq![0x00u8, 0xc0u8, 0x00u8, 0x00u8, le]
}

/// The decision after a reply with status bytes `sw1`, `sw2` at `stage`.
pub open spec fn next_spec(c: ADPUCommand, stage: Stage, sw1: u8, sw2: u8) -> Option<(Seq<u8>, Stage)> {
    if stage == Stage::Command && sw1 == 0x6c {
        Some((apdu_bytes(ADPUCommand { ne: sw2 as u32, ..c }), Stage::Resent))
    } else if sw1 == 0x61 {
        Some((get_response_bytes(sw2), Stage::Continuation))
    } else {
        None
    }
}

/// The bytes that start an exchange of `command`.
pub fn start_exchange(command: &ADPUCommand) -> (r: Result<Vec<u8>, ExchangeError>)
    ensures
        match r {
            Ok(b) => apdu_valid(*command) && b@ == apdu_bytes(*command),
            Err(e) => !apdu_valid(*command) && e == ExchangeError::Unencodable,
        },
{
    match command.encode() {
        Some(b) => Ok(b),
        None => Err(ExchangeError::Unencodable),
    }
}

/// Takes the card's `reply` to the transmission of `stage`: appends its body
/// to `response` and decides the next transmission. SW1 = 0x6C resends the
/// command with Ne = SW2 (once, after the command itself); SW1 = 0x61 asks
/// for SW2 more bytes with GET RESPONSE; any other status ends the exchange.
pub fn exchange_step(
    command: &ADPUCommand,
    stage: Stage,
    reply: &[u8],
    response: &mut Vec<u8>,
) -> (r: Result<Next, ExchangeError>)
    requires
        apdu_valid(*command),
    ensures
        reply@.len() < 2 ==> r == Err::<Next, ExchangeError>(
            ExchangeError::ReplyTooShort(reply@.len() as usize),
        ) && final(response)@ == old(response)@,
        reply@.len() >= 2 ==> {
            let sw1 = reply@[reply@.len() - 2];
            let sw2 = reply@[reply@.len() - 1];
            &&& final(response)@ == old(response)@ + reply@.subrange(0, reply@.len() - 2)
            &&& match next_spec(*command, stage, sw1, sw2) {
                Some((bytes, st)) => r matches Ok(Next::Send(b, s)) && b@ == bytes && s == st,
                None => r == Ok::<Next, ExchangeError>(Next::Finished((sw1 * 256 + sw2) as u16)),
            }
        },
{
    let n = reply.len();
    if n < 2 {
        return Err(ExchangeError::ReplyTooShort(n));
    }
    let sw1 = reply[n - 2];
    let sw2 = reply[n - 1];
    let ghost before = response@;
    let mut i: usize = 0;
    while i < n - 2
        invariant
            n == reply@.len(),
            n >= 2,
            i <= n - 2,
            response@ == before + reply@.subrange(0, i as int),
        decreases n - 2 - i,
    {
        response.push(reply[i]);
        proof {
            assert(reply@.subrange(0, i + 1) =~= reply@.subrange(0, i as int).push(
                reply@[i as int],
            ));
        }
        i += 1;
    }
    if stage == Stage::Command && sw1 == 0x6c {
        let resent = ADPUCommand { ne: sw2 as u32, ..*command };
        match resent.encode() {
            Some(b) => Ok(Next::Send(b, Stage::Resent)),
            None => Err(ExchangeError::Unencodable),
        }
    } else if sw1 == 0x61 {
        Ok(Next::Send(vec![0x00, 0xc0, 0x00, 0x00, sw2], Stage::Continuation))
    } else {
        Ok(Next::Finished(sw1 as u16 * 256 + sw2 as u16))
    }
}

/// The Lc field: empty, one byte, or 00 and two big-endian bytes.
pub open spec fn lc_bytes(nc: nat) -> Seq<u8> {
    if nc == 0 {
        Seq::empty()
    } else if nc <= 255 {
        seq![nc as u8]
    } else {
        seq![0u8, (nc / 256) as u8, (nc % 256) as u8]
    }
}

/// The Le field: empty, one byte (256 as 00), or two big-endian bytes
/// (65536 as 0000) preceded by 00 where Lc is short.
pub open spec fn le_bytes(nc: nat, ne: nat) -> Seq<u8> {
    if ne == 0 {
        Seq::empty()
    } else if ne <= 256 {
        seq![(ne % 256) as u8]
    } else {
        let ext = seq![((ne % 65536) / 256) as u8, (ne % 256) as u8];
        if nc <= 255 {
            seq![0u8] + ext
        } else {
            ext
        }
    }
}

/// A command that can be encoded.
pub open spec fn apdu_valid(c: ADPUCommand) -> bool {
    c.data@.len() <= 65535 && c.ne <= 65536
}

/// The encoding of a command: header, Lc, data, Le.
pub open spec fn apdu_bytes(c: ADPUCommand) -> Seq<u8> {
    seq![c.cla, c.ins, c.p1, c.p2] + lc_bytes(c.data@.len()) + c.data@ + le_bytes(
        c.data@.len(),
        c.ne as nat,
    )
}

/// The command fields that `b` encodes: (header, data, Ne).
pub open spec fn apdu_fields(b: Seq<u8>) -> (Seq<u8>, Seq<u8>, nat) {
    let header = b.subrange(0, 4);
    let l = b.len();
    if l == 4 {
        (header, Seq::empty(), 0)
    } else if l == 5 {
        (header, Seq::empty(), if b[4] == 0 { 256 } else { b[4] as nat })
    } else if b[4] != 0 {
        let nc = b[4] as nat;
        let data = b.subrange(5, 5 + nc as int);
        let rest = l - 5 - nc;
        let ne: nat = if rest == 0 {
            0
        } else if rest == 1 {
            if b[l - 1] == 0 {
                256
            } else {
                b[l - 1] as nat
            }
        } else {
            let v = b[l - 2] * 256 + b[l - 1];
            if v == 0 {
                65536
            } else {
                v as nat
            }
        };
        (header, data, ne)
    } else if l == 7 {
        let v = b[5] * 256 + b[6];
        (header, Seq::empty(), if v == 0 { 65536 } else { v as nat })
    } else {
        let nc = (b[5] * 256 + b[6]) as nat;
        let data = b.subrange(7, 7 + nc as int);
        let rest = l - 7 - nc;
        let ne: nat = if rest == 0 {
            0
        } else if rest == 1 {
            if b[l - 1] == 0 {
                256
            } else {
                b[l - 1] as nat
            }
        } else {
            let v = b[l - 2] * 256 + b[l - 1];
            if v == 0 {
                65536
            } else {
                v as nat
            }
        };
        (header, data, ne)
    }
}

/// The fields of a command can be read back from its encoding.
pub proof fn lemma_apdu_decodes(c: ADPUCommand)
    requires
        apdu_valid(c),
    ensures
        apdu_fields(apdu_bytes(c)) == (seq![c.cla, c.ins, c.p1, c.p2], c.data@, c.ne as nat),
{
    let b = apdu_bytes(c);
    let nc = c.data@.len();
    let ne = c.ne as nat;
    let h = seq![c.cla, c.ins, c.p1, c.p2];
    let lc = lc_bytes(nc);
    let le = le_bytes(nc, ne);
    assert(b.subrange(0, 4) =~= h);
    assert(b.len() == 4 + lc.len() + nc + le.len());
    if nc == 0 {
        assert(b =~= h + le);
    } else if nc <= 255 {
        assert(b[4] == nc as u8);
        assert(b.subrange(5, 5 + nc as int) =~= c.data@);
        if le.len() > 0 {
            assert(b.subrange(5 + nc as int, b.len() as int) =~= le);
        }
    } else {
        assert(b[4] == 0);
        assert(b[5] * 256 + b[6] == nc) by {
            assert(b[5] == (nc / 256) as u8);
            assert(b[6] == (nc % 256) as u8);
        }
        assert(b.subrange(7, 7 + nc as int) =~= c.data@);
        if le.len() > 0 {
            assert(b.subrange(7 + nc as int, b.len() as int) =~= le);
        }
    }
}

/// Distinct valid commands have distinct encodings.
pub proof fn lemma_apdu_injective(a: ADPUCommand, b: ADPUCommand)
    requires
        apdu_valid(a),
        apdu_valid(b),
        apdu_bytes(a) == apdu_bytes(b),
    ensures
        a.cla == b.cla,
        a.ins == b.ins,
        a.p1 == b.p1,
        a.p2 == b.p2,
        a.data@ == b.data@,
        a.ne == b.ne,
{
    lemma_apdu_decodes(a);
    lemma_apdu_decodes(b);
    let ha = seq![a.cla, a.ins, a.p1, a.p2];
    let hb = seq![b.cla, b.ins, b.p1, b.p2];
    assert(ha[0] == hb[0] && ha[1] == hb[1] && ha[2] == hb[2] && ha[3] == hb[3]);
}

} // verus!
