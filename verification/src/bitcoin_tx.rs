use vstd::prelude::*;
use vstd::string::StrSliceExecFns;

use crate::errors::Error;
use crate::address::{p2pkh_script_from_address, script_of_address};
use crate::hexcodec::{hex_decode, bytes_of_hex, is_hex_seq};
use crate::hashing::{sha256d, sha256d_of};

verus! {

/// The maximum possible unit count of the modeled ledger: twenty-one
/// million coins of one hundred million smallest units each.
pub const MAX_SATOSHIS: u128 = 21_000_000 * 100_000_000;

/// The single input of a withdrawal transaction: the funded prior output
/// it spends, the spend-authorization script occupying the signature
/// field, and the sequence number.
pub struct TxIn {
    /// The prior transaction's 32-byte id in display order; the wire
    /// encoding reverses it.
    pub txid: Vec<u8>,
    pub vout: u32,
    pub script_sig: Vec<u8>,
    pub sequence: u32,
}

/// One output: a value in smallest units and the script that locks it.
pub struct TxOut {
    pub value: u64,
    pub script_pubkey: Vec<u8>,
}

/// A legacy transaction with exactly one input, ready for signing.
pub struct UnsignedTransaction {
    pub version: u32,
    pub input: TxIn,
    pub outputs: Vec<TxOut>,
    pub lock_time: u32,
}

/// The four little-endian bytes of a 32-bit integer.
pub open spec fn u32_le(x: u32) -> Seq<u8> {
    seq![
        (x % 256) as u8,
        (x / 256 % 256) as u8,
        (x / 65536 % 256) as u8,
        (x / 16777216 % 256) as u8,
    ]
}

/// The eight little-endian bytes of a 64-bit integer.
pub open spec fn u64_le(x: u64) -> Seq<u8> {
    seq![
        (x % 256) as u8,
        (x / 256 % 256) as u8,
        (x / 65536 % 256) as u8,
        (x / 16777216 % 256) as u8,
        (x / 4294967296 % 256) as u8,
        (x / 1099511627776 % 256) as u8,
        (x / 281474976710656 % 256) as u8,
        (x / 72057594037927936 % 256) as u8,
    ]
}

/// The variable-length count encoding of the wire format.
pub open spec fn compact_size(n: nat) -> Seq<u8> {
    if n < 0xfd {
        seq![n as u8]
    } else if n <= 0xffff {
        seq![0xfdu8, (n % 256) as u8, (n / 256) as u8]
    } else if n <= 0xffffffff {
        seq![0xfeu8] + u32_le(n as u32)
    } else {
        seq![0xffu8] + u64_le(n as u64)
    }
}

/// The same byte string in reverse order.
pub open spec fn rev_bytes(s: Seq<u8>) -> Seq<u8> {
    Seq::new(s.len(), |i: int| s[s.len() - 1 - i])
}

/// The wire bytes of the input when its signature field holds `script`:
/// reversed txid, output index, length-prefixed script, sequence.
pub open spec fn ser_tx_in_with_script(txin: TxIn, script: Seq<u8>) -> Seq<u8> {
    rev_bytes(txin.txid@) + u32_le(txin.vout) + compact_size(script.len()) + script + u32_le(
        txin.sequence,
    )
}

/// The wire bytes of one output: value, then length-prefixed script.
pub open spec fn ser_tx_out(o: TxOut) -> Seq<u8> {
    u64_le(o.value) + compact_size(o.script_pubkey@.len()) + o.script_pubkey@
}

/// The concatenated wire bytes of a list of outputs.
pub open spec fn ser_tx_outs(outs: Seq<TxOut>) -> Seq<u8>
    decreases outs.len(),
{
    if outs.len() == 0 {
        Seq::empty()
    } else {
        ser_tx_out(outs[0]) + ser_tx_outs(outs.drop_first())
    }
}

/// The legacy wire bytes of the whole transaction with the input's
/// signature field replaced by `script`: version, input count, input,
/// output count, outputs, lock time.
pub open spec fn ser_tx_with_script(tx: UnsignedTransaction, script: Seq<u8>) -> Seq<u8> {
    u32_le(tx.version) + seq![1u8] + ser_tx_in_with_script(tx.input, script) + compact_size(
        tx.outputs@.len(),
    ) + ser_tx_outs(tx.outputs@) + u32_le(tx.lock_time)
}

/// The legacy wire bytes of the transaction as it stands.
pub open spec fn ser_tx(tx: UnsignedTransaction) -> Seq<u8> {
    ser_tx_with_script(tx, tx.input.script_sig@)
}

/// The "sign all" pre-image: the wire bytes followed by the sighash type
/// as four little-endian bytes.
pub open spec fn signing_preimage(tx: UnsignedTransaction) -> Seq<u8> {
    ser_tx(tx) + u32_le(1)
}

/// The 32-byte digest the remote signer must sign: the double SHA-256 of
/// the "sign all" pre-image.
pub open spec fn digest_of(tx: UnsignedTransaction) -> Seq<u8> {
    sha256d_of(signing_preimage(tx))
}

/// The final signature field of a redeemed input: a one-byte push of the
/// signature, then a one-byte push of the funder's key material.
pub open spec fn sig_script(sig: Seq<u8>, pubkey: Seq<u8>) -> Seq<u8> {
    seq![sig.len() as u8] + sig + seq![pubkey.len() as u8] + pubkey
}

/// The marker output script carrying an auxiliary payload: the data-push
/// marker opcode, a one-byte length, then the raw payload bytes.
pub open spec fn op_return_script(data: Seq<u8>) -> Seq<u8>
    recommends
        data.len() <= 80,
{
    seq![0x6au8, data.len() as u8] + data
}

impl UnsignedTransaction {
    /// The structural bounds the wire encoding relies on: a 32-byte txid
    /// and scripts and counts below the one-byte count limit.
    pub open spec fn wf(self) -> bool {
        &&& self.input.txid@.len() == 32
        &&& self.input.script_sig@.len() < 0xfd
        &&& self.outputs@.len() < 0xfd
        &&& forall|i: int|
            0 <= i < self.outputs@.len() ==> (#[trigger] self.outputs@[i]).script_pubkey@.len()
                < 0xfd
    }
}

fn push_u32_le(out: &mut Vec<u8>, x: u32)
    ensures
        final(out)@ == old(out)@ + u32_le(x),
{
    out.push((x % 256) as u8);
    out.push((x / 256 % 256) as u8);
    out.push((x / 65536 % 256) as u8);
    out.push((x / 16777216 % 256) as u8);
    assert(out@ =~= old(out)@ + u32_le(x));
}

fn push_u64_le(out: &mut Vec<u8>, x: u64)
    ensures
        final(out)@ == old(out)@ + u64_le(x),
{
    out.push((x % 256) as u8);
    out.push((x / 256 % 256) as u8);
    out.push((x / 65536 % 256) as u8);
    out.push((x / 16777216 % 256) as u8);
    out.push((x / 4294967296 % 256) as u8);
    out.push((x / 1099511627776 % 256) as u8);
    out.push((x / 281474976710656 % 256) as u8);
    out.push((x / 72057594037927936 % 256) as u8);
    assert(out@ =~= old(out)@ + u64_le(x));
}

fn push_compact_size(out: &mut Vec<u8>, n: usize)
    requires
        n < 0xfd,
    ensures
        final(out)@ == old(out)@ + compact_size(n as nat),
{
    out.push(n as u8);
    assert(out@ =~= old(out)@ + compact_size(n as nat));
}

pub(crate) fn push_bytes(out: &mut Vec<u8>, b: &Vec<u8>)
    ensures
        final(out)@ == old(out)@ + b@,
{
    out.extend_from_slice(b.as_slice());
    assert(out@ =~= old(out)@ + b@);
}

fn push_reversed(out: &mut Vec<u8>, b: &Vec<u8>)
    ensures
        final(out)@ == old(out)@ + rev_bytes(b@),
{
    let n: usize = b.len();
    let mut i: usize = 0;
    while i < n
        invariant
            i <= n,
            n == b@.len(),
            out@ == old(out)@ + rev_bytes(b@).take(i as int),
        decreases n - i,
    {
        out.push(b[n - 1 - i]);
        assert(rev_bytes(b@).take(i + 1) =~= rev_bytes(b@).take(i as int).push(
            b@[n - 1 - i as int],
        ));
        i = i + 1;
    }
    assert(rev_bytes(b@).take(n as int) =~= rev_bytes(b@));
}

fn push_tx_out(out: &mut Vec<u8>, o: &TxOut)
    requires
        o.script_pubkey@.len() < 0xfd,
    ensures
        final(out)@ == old(out)@ + ser_tx_out(*o),
{
    push_u64_le(out, o.value);
    push_compact_size(out, o.script_pubkey.len());
    push_bytes(out, &o.script_pubkey);
    assert(out@ =~= old(out)@ + ser_tx_out(*o));
}

proof fn lemma_ser_tx_outs_snoc(s: Seq<TxOut>, x: TxOut)
    ensures
        ser_tx_outs(s.push(x)) == ser_tx_outs(s) + ser_tx_out(x),
    decreases s.len(),
{
    let p = s.push(x);
    if s.len() == 0 {
        assert(p.drop_first() =~= Seq::<TxOut>::empty());
        assert(ser_tx_outs(p) == ser_tx_out(x) + ser_tx_outs(Seq::<TxOut>::empty()));
        assert(ser_tx_out(x) + Seq::<u8>::empty() =~= ser_tx_out(x));
        assert(Seq::<u8>::empty() + ser_tx_out(x) =~= ser_tx_out(x));
    } else {
        lemma_ser_tx_outs_snoc(s.drop_first(), x);
        assert(p.drop_first() =~= s.drop_first().push(x));
        assert(p[0] == s[0]);
        assert(ser_tx_outs(p) == ser_tx_out(s[0]) + (ser_tx_outs(s.drop_first()) + ser_tx_out(x)));
        assert(ser_tx_out(s[0]) + (ser_tx_outs(s.drop_first()) + ser_tx_out(x)) =~= (ser_tx_out(
            s[0],
        ) + ser_tx_outs(s.drop_first())) + ser_tx_out(x));
    }
}

/// Serializes the transaction to its legacy wire bytes, with `script` in
/// place of the input's signature field.
fn serialize_with_script(tx: &UnsignedTransaction, script: &Vec<u8>) -> (r: Vec<u8>)
    requires
        tx.wf(),
        script@.len() < 0xfd,
    ensures
        r@ == ser_tx_with_script(*tx, script@),
{
    let mut buf: Vec<u8> = Vec::new();
    push_u32_le(&mut buf, tx.version);
    buf.push(1u8);
    assert(buf@ =~= u32_le(tx.version) + seq![1u8]);
    push_reversed(&mut buf, &tx.input.txid);
    push_u32_le(&mut buf, tx.input.vout);
    push_compact_size(&mut buf, script.len());
    push_bytes(&mut buf, script);
    push_u32_le(&mut buf, tx.input.sequence);
    assert(buf@ =~= u32_le(tx.version) + seq![1u8] + ser_tx_in_with_script(tx.input, script@));
    push_compact_size(&mut buf, tx.outputs.len());
    let ghost header = buf@;
    let mut i: usize = 0;
    while i < tx.outputs.len()
        invariant
            i <= tx.outputs@.len(),
            tx.wf(),
            buf@ == header + ser_tx_outs(tx.outputs@.take(i as int)),
        decreases tx.outputs@.len() - i,
    {
        push_tx_out(&mut buf, &tx.outputs[i]);
        proof {
            lemma_ser_tx_outs_snoc(tx.outputs@.take(i as int), tx.outputs@[i as int]);
            assert(tx.outputs@.take(i + 1) =~= tx.outputs@.take(i as int).push(
                tx.outputs@[i as int],
            ));
        }
        i = i + 1;
    }
    assert(tx.outputs@.take(tx.outputs@.len() as int) =~= tx.outputs@);
    push_u32_le(&mut buf, tx.lock_time);
    assert(buf@ =~= ser_tx_with_script(*tx, script@));
    buf
}

/// Serializes the transaction to its legacy wire bytes as it stands.
pub fn serialize_tx(tx: &UnsignedTransaction) -> (r: Vec<u8>)
    requires
        tx.wf(),
    ensures
        r@ == ser_tx(*tx),
{
    serialize_with_script(tx, &tx.input.script_sig)
}

/// Serializes the transaction using the legacy single-input "sign all"
/// pre-image rules: the wire bytes followed by the sighash type.
pub fn get_encoded_tx(tx: &UnsignedTransaction) -> (r: Vec<u8>)
    requires
        tx.wf(),
    ensures
        r@ == signing_preimage(*tx),
{
    let mut buf = serialize_tx(tx);
    push_u32_le(&mut buf, 1);
    buf
}

/// Computes the 32-byte digest handed to the remote signer: the double
/// SHA-256 of the "sign all" pre-image. A function of the transaction
/// alone, so identical transactions always yield identical digests.
pub fn signing_digest(tx: &UnsignedTransaction) -> (r: Vec<u8>)
    requires
        tx.wf(),
    ensures
        r@ == digest_of(*tx),
        r@.len() == 32,
{
    sha256d(get_encoded_tx(tx))
}

/// The digest depends only on the transaction's mathematical content:
/// transactions that agree field by field (up to the views of their byte
/// vectors) have equal signing digests.
pub proof fn lemma_signing_digest_deterministic(a: UnsignedTransaction, b: UnsignedTransaction)
    requires
        a.version == b.version,
        a.input.txid@ == b.input.txid@,
        a.input.vout == b.input.vout,
        a.input.script_sig@ == b.input.script_sig@,
        a.input.sequence == b.input.sequence,
        a.outputs@.len() == b.outputs@.len(),
        forall|i: int|
            0 <= i < a.outputs@.len() ==> (#[trigger] a.outputs@[i]).value == b.outputs@[i].value
                && a.outputs@[i].script_pubkey@ == b.outputs@[i].script_pubkey@,
        a.lock_time == b.lock_time,
    ensures
        digest_of(a) == digest_of(b),
{
    lemma_ser_tx_outs_congruent(a.outputs@, b.outputs@);
    assert(ser_tx_in_with_script(a.input, a.input.script_sig@) == ser_tx_in_with_script(
        b.input,
        b.input.script_sig@,
    ));
}

proof fn lemma_ser_tx_outs_congruent(a: Seq<TxOut>, b: Seq<TxOut>)
    requires
        a.len() == b.len(),
        forall|i: int|
            0 <= i < a.len() ==> (#[trigger] a[i]).value == b[i].value
                && a[i].script_pubkey@ == b[i].script_pubkey@,
    ensures
        ser_tx_outs(a) == ser_tx_outs(b),
    decreases a.len(),
{
    if a.len() > 0 {
        lemma_ser_tx_outs_congruent(a.drop_first(), b.drop_first());
        assert(ser_tx_out(a[0]) == ser_tx_out(b[0]));
    }
}

fn clone_bytes(v: &Vec<u8>) -> (r: Vec<u8>)
    ensures
        r@ == v@,
{
    let mut r: Vec<u8> = Vec::new();
    let mut i: usize = 0;
    while i < v.len()
        invariant
            i <= v@.len(),
            r@ == v@.take(i as int),
        decreases v@.len() - i,
    {
        r.push(v[i]);
        assert(v@.take(i + 1) =~= v@.take(i as int).push(v@[i as int]));
        i = i + 1;
    }
    assert(v@.take(v@.len() as int) =~= v@);
    r
}

/// Whether a prior-transaction id is well formed: 64 hexadecimal digits,
/// denoting the 32-byte digest of the funded transaction.
pub open spec fn txid_ok(s: Seq<char>) -> bool {
    s.len() == 64 && is_hex_seq(s)
}

/// Whether an auxiliary payload is acceptable once its size is: valid
/// hexadecimal of even length.
pub open spec fn aux_hex_ok(s: Seq<char>) -> bool {
    s.len() % 2 == 0 && is_hex_seq(s)
}

/// Which outcome assembling a transaction from these inputs has, checks in
/// order: the prior txid must be 64 hexadecimal digits; both addresses
/// must decode; neither amount may exceed the maximum supply; an auxiliary
/// payload must be at most 160 hexadecimal characters and valid
/// hexadecimal.
pub open spec fn build_check(
    txid: Seq<char>,
    funder: Seq<char>,
    receiver: Seq<char>,
    amount: u128,
    change: u128,
    aux: Option<Seq<char>>,
) -> Result<(), Error> {
    if !txid_ok(txid) {
        Err(Error::MalformedInput)
    } else if script_of_address(funder) is None {
        Err(Error::InvalidAddress)
    } else if script_of_address(receiver) is None {
        Err(Error::InvalidAddress)
    } else if amount > MAX_SATOSHIS || change > MAX_SATOSHIS {
        Err(Error::AmountOutOfRange)
    } else if aux matches Some(s) && s.len() > 160 {
        Err(Error::PayloadTooLarge)
    } else if aux matches Some(s) && !aux_hex_ok(s) {
        Err(Error::MalformedInput)
    } else {
        Ok(())
    }
}

/// The view of an optional auxiliary payload argument.
pub open spec fn aux_view(aux: Option<&str>) -> Option<Seq<char>> {
    match aux {
        Some(s) => Some(s@),
        None => None,
    }
}

/// Everything transaction assembly promises: it succeeds exactly when
/// `build_check` accepts the inputs, it reports exactly the error
/// `build_check` assigns, and on success every field of the transaction is
/// pinned down — placeholder input script from the funder's address, spend
/// output to the receiver, change output back to the funder, and the
/// optional zero-value marker output carrying the auxiliary payload.
pub open spec fn build_post(
    r: Result<UnsignedTransaction, Error>,
    txid: Seq<char>,
    vout: u32,
    funder: Seq<char>,
    receiver: Seq<char>,
    amount: u128,
    change: u128,
    aux: Option<Seq<char>>,
) -> bool {
    &&& (r is Ok <==> build_check(txid, funder, receiver, amount, change, aux) is Ok)
    &&& (r matches Err(e) ==> build_check(txid, funder, receiver, amount, change, aux) == Err::<
        (),
        Error,
    >(e))
    &&& (r matches Ok(tx) ==> {
        &&& tx.wf()
        &&& tx.version == 1
        &&& tx.lock_time == 0
        &&& tx.input.txid@ == bytes_of_hex(txid)
        &&& tx.input.vout == vout
        &&& tx.input.sequence == 0xffffffffu32
        &&& Some(tx.input.script_sig@) == script_of_address(funder)
        &&& tx.outputs@.len() == (if aux is Some {
            3int
        } else {
            2int
        })
        &&& tx.outputs@[0].value == amount as u64
        &&& Some(tx.outputs@[0].script_pubkey@) == script_of_address(receiver)
        &&& tx.outputs@[1].value == change as u64
        &&& Some(tx.outputs@[1].script_pubkey@) == script_of_address(funder)
        &&& (aux matches Some(s) ==> tx.outputs@[2].value == 0 && tx.outputs@[2].script_pubkey@
            == op_return_script(bytes_of_hex(s)))
    })
}

/// Builds the unsigned withdrawal transaction: one input referencing the
/// funded prior output, carrying the funder's spend-authorization script
/// as a placeholder signature field and the unlimited sequence number; a
/// first output paying `amount` to the receiver; a second output paying
/// `change` back to the funder; and, iff an auxiliary payload is supplied,
/// a zero-value third output embedding it behind a data-push marker.
/// Version and lock time are the legacy defaults.
pub fn build_unsigned(
    txid_str: &str,
    vout: u32,
    funder: &str,
    receiver: &str,
    amount: u128,
    change: u128,
    op_return_hex: Option<&str>,
) -> (r: Result<UnsignedTransaction, Error>)
    ensures
        build_post(r, txid_str@, vout, funder@, receiver@, amount, change, aux_view(op_return_hex)),
{
    let txid_bytes = match hex_decode(txid_str) {
        Some(b) => b,
        None => {
            return Err(Error::MalformedInput);
        },
    };
    if txid_bytes.len() != 32 {
        return Err(Error::MalformedInput);
    }
    let funder_script = match p2pkh_script_from_address(funder) {
        Ok(s) => s,
        Err(_) => {
            return Err(Error::InvalidAddress);
        },
    };
    let receiver_script = match p2pkh_script_from_address(receiver) {
        Ok(s) => s,
        Err(_) => {
            return Err(Error::InvalidAddress);
        },
    };
    if amount > MAX_SATOSHIS || change > MAX_SATOSHIS {
        return Err(Error::AmountOutOfRange);
    }
    let change_script = clone_bytes(&funder_script);
    let input = TxIn { txid: txid_bytes, vout, script_sig: funder_script, sequence: 0xffffffffu32 };
    let mut outputs: Vec<TxOut> = Vec::new();
    outputs.push(TxOut { value: amount as u64, script_pubkey: receiver_script });
    outputs.push(TxOut { value: change as u64, script_pubkey: change_script });
    if let Some(aux) = op_return_hex {
        if aux.unicode_len() > 160 {
            return Err(Error::PayloadTooLarge);
        }
        let data = match hex_decode(aux) {
            Some(d) => d,
            None => {
                return Err(Error::MalformedInput);
            },
        };
        let mut marker: Vec<u8> = Vec::new();
        marker.push(0x6au8);
        marker.push(data.len() as u8);
        let mut script = marker;
        push_bytes(&mut script, &data);
        assert(script@ =~= op_return_script(bytes_of_hex(aux@)));
        outputs.push(TxOut { value: 0u64, script_pubkey: script });
    }
    Ok(UnsignedTransaction { version: 1u32, input, outputs, lock_time: 0u32 })
}

/// Assembles the unsigned withdrawal transaction from the prior output
/// reference, the two addresses, the two amounts and the optional
/// auxiliary payload. A convenience alias of `build_unsigned` with the
/// same contract, for callers that know it by this name.
pub fn get_tx(
    txid_str: &str,
    vout: u32,
    funder: &str,
    receiver: &str,
    amount: u128,
    change: u128,
    op_return_hex: Option<&str>,
) -> (r: Result<UnsignedTransaction, Error>)
    ensures
        build_post(r, txid_str@, vout, funder@, receiver@, amount, change, aux_view(op_return_hex)),
{
    build_unsigned(txid_str, vout, funder, receiver, amount, change, op_return_hex)
}

/// Builds the final signature field from the returned signature and the
/// funder's key material, substitutes it into the input, and serializes
/// the complete transaction to its canonical wire bytes. The resulting
/// input script begins with a one-byte push of the signature length.
pub fn finalize_signed(tx: &UnsignedTransaction, signature: &Vec<u8>, pubkey: &Vec<u8>) -> (r: Vec<
    u8,
>)
    requires
        tx.wf(),
        0 < signature@.len() <= 75,
        0 < pubkey@.len() <= 75,
    ensures
        r@ == ser_tx_with_script(*tx, sig_script(signature@, pubkey@)),
{
    let mut script: Vec<u8> = Vec::new();
    script.push(signature.len() as u8);
    push_bytes(&mut script, signature);
    script.push(pubkey.len() as u8);
    push_bytes(&mut script, pubkey);
    assert(script@ =~= sig_script(signature@, pubkey@));
    serialize_with_script(tx, &script)
}

} // verus!
