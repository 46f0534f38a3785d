use vstd::prelude::*;

verus! {

pub const OP_FALSE: u8 = 0x00;
pub const OP_PUSHDATA1: u8 = 0x4c;
pub const OP_PUSHDATA2: u8 = 0x4d;
pub const OP_PUSHDATA4: u8 = 0x4e;
pub const OP_PUSHNUM_1: u8 = 0x51;
pub const OP_IF: u8 = 0x63;
pub const OP_ENDIF: u8 = 0x68;
pub const OP_CHECKSIG: u8 = 0xac;

/// Largest data push in an envelope body.
pub const MAX_CHUNK: usize = 520;

/// Script instructions that push `d` onto the stack, in the shortest of the
/// explicit push forms.
pub open spec fn push_spec(d: Seq<u8>) -> Seq<u8> {
    let n = d.len();
    if n < 0x4c {
        seq![n as u8] + d
    } else if n < 0x100 {
        seq![OP_PUSHDATA1, n as u8] + d
    } else if n < 0x10000 {
        seq![OP_PUSHDATA2, (n % 0x100) as u8, (n / 0x100) as u8] + d
    } else {
        seq![
            OP_PUSHDATA4,
            (n % 0x100) as u8,
            ((n / 0x100) % 0x100) as u8,
            ((n / 0x10000) % 0x100) as u8,
            (n / 0x1000000) as u8,
        ] + d
    }
}

/// The body pushed in chunks of at most `MAX_CHUNK` bytes.
pub open spec fn chunks_spec(b: Seq<u8>) -> Seq<u8>
    decreases b.len(),
{
    if b.len() == 0 {
        seq![]
    } else if b.len() <= MAX_CHUNK {
        push_spec(b)
    } else {
        push_spec(b.subrange(0, MAX_CHUNK as int)) + chunks_spec(b.subrange(MAX_CHUNK as int, b.len() as int))
    }
}

/// The protocol tag that opens an envelope.
pub open spec fn protocol_id() -> Seq<u8> {
    seq![0x6f, 0x72, 0x64]
}

/// An inscription envelope: an unexecuted branch that carries the content
/// type, under tag 1, and the body, under the empty tag.
pub open spec fn envelope_spec(content_type: Option<Seq<u8>>, body: Option<Seq<u8>>) -> Seq<u8> {
    seq![OP_FALSE, OP_IF] + push_spec(protocol_id()) + match content_type {
        Some(c) => push_spec(seq![1u8]) + push_spec(c),
        None => seq![],
    } + match body {
        Some(b) => push_spec(seq![]) + chunks_spec(b),
        None => seq![],
    } + seq![OP_ENDIF]
}

/// The reveal script: a signature check against `key`, then the envelope.
pub open spec fn reveal_script_spec(key: Seq<u8>, content_type: Option<Seq<u8>>, body: Option<Seq<u8>>) -> Seq<u8> {
    push_spec(key) + seq![OP_CHECKSIG] + envelope_spec(content_type, body)
}

/// The output script that pays a Taproot output key.
pub open spec fn p2tr_script_spec(output_key: Seq<u8>) -> Seq<u8> {
    seq![OP_PUSHNUM_1, 0x20u8] + output_key
}

/// A payload to inscribe: its content type and its body, either of which may be absent.
#[derive(Clone, Debug)]
pub struct Inscription {
    pub content_type: Option<Vec<u8>>,
    pub body: Option<Vec<u8>>,
}

impl Inscription {
    pub open spec fn content_type_view(&self) -> Option<Seq<u8>> {
        match self.content_type {
            Some(c) => Some(c@),
            None => None,
        }
    }

    pub open spec fn body_view(&self) -> Option<Seq<u8>> {
        match self.body {
            Some(b) => Some(b@),
            None => None,
        }
    }

    /// Every push fits the largest push form.
    pub open spec fn wf(&self) -> bool {
        match self.content_type {
            Some(c) => c@.len() < 0x1_0000_0000,
            None => true,
        }
    }

    /// A payload with both a content type and a body.
    pub fn new(content_type: Vec<u8>, body: Vec<u8>) -> (r: Inscription)
        ensures
            r.content_type_view() == Some(content_type@),
            r.body_view() == Some(body@),
    {
        Inscription { content_type: Some(content_type), body: Some(body) }
    }
}

/// Appends `d[start..end]` as one data push.
pub fn push_range(out: &mut Vec<u8>, d: &[u8], start: usize, end: usize)
    requires
        start <= end <= d@.len(),
        end - start < 0x1_0000_0000,
    ensures
        final(out)@ == old(out)@ + push_spec(d@.subrange(start as int, end as int)),
{
    let n: usize = end - start;
    let ghost start_out = old(out)@;
    if n < 0x4c {
        out.push(n as u8);
    } else if n < 0x100 {
        out.push(OP_PUSHDATA1);
        out.push(n as u8);
    } else if n < 0x10000 {
        out.push(OP_PUSHDATA2);
        out.push((n % 0x100) as u8);
        out.push((n / 0x100) as u8);
    } else {
        out.push(OP_PUSHDATA4);
        out.push((n % 0x100) as u8);
        out.push(((n / 0x100) % 0x100) as u8);
        out.push(((n / 0x10000) % 0x100) as u8);
        out.push((n / 0x1000000) as u8);
    }
    let ghost header = out@.subrange(start_out.len() as int, out@.len() as int);
    assert(out@ =~= start_out + header);
    let mut i: usize = start;
    while i < end
        invariant
            start <= i <= end <= d@.len(),
            out@ =~= start_out + header + d@.subrange(start as int, i as int),
        decreases end - i,
    {
        out.push(d[i]);
        assert(d@.subrange(start as int, i + 1) =~= d@.subrange(start as int, i as int).push(d@[i as int]));
        i = i + 1;
    }
    assert(push_spec(d@.subrange(start as int, end as int)) =~= header + d@.subrange(start as int, end as int));
}

/// Appends the body in chunks of at most `MAX_CHUNK` bytes.
pub fn push_chunks(out: &mut Vec<u8>, b: &[u8])
    ensures
        final(out)@ == old(out)@ + chunks_spec(b@),
{
    let ghost start_out = old(out)@;
    let mut i: usize = 0;
    assert(b@.subrange(0, b@.len() as int) =~= b@);
    while i < b.len()
        invariant
            i <= b@.len(),
            start_out + chunks_spec(b@) == out@ + chunks_spec(b@.subrange(i as int, b@.len() as int)),
        decreases b@.len() - i,
    {
        let rest = b.len() - i;
        let ghost tail = b@.subrange(i as int, b@.len() as int);
        if rest <= MAX_CHUNK {
            push_range(out, b, i, b.len());
            assert(chunks_spec(tail) == push_spec(tail));
            assert(b@.subrange(b@.len() as int, b@.len() as int) =~= Seq::<u8>::empty());
            i = b.len();
        } else {
            push_range(out, b, i, i + MAX_CHUNK);
            assert(tail.subrange(0, MAX_CHUNK as int) =~= b@.subrange(i as int, i + MAX_CHUNK));
            assert(tail.subrange(MAX_CHUNK as int, tail.len() as int) =~= b@.subrange(i + MAX_CHUNK, b@.len() as int));
            i = i + MAX_CHUNK;
        }
    }
    assert(b@.subrange(b@.len() as int, b@.len() as int) =~= Seq::<u8>::empty());
    assert(chunks_spec(Seq::<u8>::empty()) =~= Seq::<u8>::empty());
}

/// Appends one whole slice as a data push.
pub fn push_slice(out: &mut Vec<u8>, d: &[u8])
    requires
        d@.len() < 0x1_0000_0000,
    ensures
        final(out)@ == old(out)@ + push_spec(d@),
{
    push_range(out, d, 0, d.len());
    assert(d@.subrange(0, d@.len() as int) =~= d@);
}

/// The reveal script for `key` and `inscription`.
pub fn reveal_script(key: &[u8; 32], inscription: &Inscription) -> (r: Vec<u8>)
    requires
        inscription.wf(),
    ensures
        r@ == reveal_script_spec(key@, inscription.content_type_view(), inscription.body_view()),
{
    let mut out: Vec<u8> = Vec::new();
    push_slice(&mut out, key);
    out.push(OP_CHECKSIG);
    let ghost head = out@;
    out.push(OP_FALSE);
    out.push(OP_IF);
    let tag: [u8; 3] = [0x6f, 0x72, 0x64];
    assert(tag@ =~= protocol_id());
    push_slice(&mut out, &tag);
    let ghost after_tag = out@;
    match &inscription.content_type {
        Some(c) => {
            let one: [u8; 1] = [1];
            push_slice(&mut out, &one);
            assert(one@ =~= seq![1u8]);
            push_slice(&mut out, c.as_slice());
        },
        None => {},
    }
    let ghost after_ct = out@;
    match &inscription.body {
        Some(b) => {
            let empty: [u8; 0] = [];
            push_slice(&mut out, &empty);
            assert(empty@ =~= Seq::<u8>::empty());
            push_chunks(&mut out, b.as_slice());
        },
        None => {},
    }
    out.push(OP_ENDIF);
    assert(out@ =~= reveal_script_spec(key@, inscription.content_type_view(), inscription.body_view()));
    out
}

/// The output script that pays the Taproot output key `output_key`.
pub fn p2tr_script(output_key: &[u8; 32]) -> (r: Vec<u8>)
    ensures
        r@ == p2tr_script_spec(output_key@),
{
    let mut out: Vec<u8> = Vec::new();
    out.push(OP_PUSHNUM_1);
    out.push(0x20);
    let mut i: usize = 0;
    while i < 32
        invariant
            i <= 32,
            out@ =~= seq![OP_PUSHNUM_1, 0x20u8] + output_key@.subrange(0, i as int),
        decreases 32 - i,
    {
        out.push(output_key[i]);
        assert(output_key@.subrange(0, i + 1) =~= output_key@.subrange(0, i as int).push(output_key@[i as int]));
        i = i + 1;
    }
    assert(output_key@.subrange(0, 32) =~= output_key@);
    out
}

} // verus!
