//! ICMP echo (RFC 792): turn an Echo Request (type 8) into an Echo Reply
//! (type 0). The checksum covers the whole message, header and payload.

use vstd::prelude::*;
use vstd::slice::slice_to_vec;
use super::wire::be16;
use super::checksum::{
    checksum_of, fold16, internet_checksum, stamp, word_sum, lemma_fold_add, lemma_stamped_checksum_is_zero,
    lemma_word_sum_stamp,
};

verus! {

/// The request with its type and checksum zeroed: the reply before its
/// checksum is filled in.
pub open spec fn reply_template(request: Seq<u8>) -> Seq<u8> {
    request.update(0, 0).update(2, 0).update(3, 0)
}

/// The Echo Reply for a request.
pub open spec fn echo_reply_bytes(request: Seq<u8>) -> Seq<u8> {
    stamp(reply_template(request), 2, checksum_of(reply_template(request)))
}

/// A message with a new identifier and a fresh checksum.
pub open spec fn with_echo_id(message: Seq<u8>, id: u16) -> Seq<u8> {
    let t = message.update(4, (id / 256) as u8).update(5, (id % 256) as u8).update(2, 0).update(3, 0);
    stamp(t, 2, checksum_of(t))
}

/// Answers an Echo Request. The reply keeps the identifier, sequence number
/// and payload, has type 0, and checksums to zero.
pub fn make_echo_reply(request: &[u8]) -> (r: Result<Vec<u8>, &'static str>)
    ensures
        request@.len() < 8 ==> (r matches Err(e) && e == "truncated ICMP echo"),
        request@.len() >= 8 && (request@[0] != 8 || request@[1] != 0) ==> (r matches Err(e) && e
            == "not echo request"),
        request@.len() >= 8 && request@[0] == 8 && request@[1] == 0 && checksum_of(request@) != 0 ==> (
        r matches Err(e) && e == "bad icmp checksum"),
        r is Ok <==> (request@.len() >= 8 && request@[0] == 8 && request@[1] == 0 && checksum_of(request@)
            == 0),
        r matches Ok(reply) ==> {
            &&& reply@ == echo_reply_bytes(request@)
            &&& reply@.len() == request@.len()
            &&& reply@[0] == 0
            &&& reply@[1] == 0
            &&& reply@.subrange(4, reply@.len() as int) == request@.subrange(4, request@.len() as int)
            &&& checksum_of(reply@) == 0
            &&& reply@.subrange(2, 4) != request@.subrange(2, 4)
        },
{
    if request.len() < 8 {
        return Err("truncated ICMP echo");
    }
    if request[0] != 8 || request[1] != 0 {
        return Err("not echo request");
    }
    if internet_checksum(request) != 0 {
        return Err("bad icmp checksum");
    }
    let mut reply = slice_to_vec(request);
    reply.set(0, 0);
    reply.set(2, 0);
    reply.set(3, 0);
    let ghost template = reply@;
    assert(template =~= reply_template(request@));
    let sum = internet_checksum(reply.as_slice());
    reply.set(2, (sum / 256) as u8);
    reply.set(3, (sum % 256) as u8);
    proof {
        assert(reply@ =~= echo_reply_bytes(request@));
        lemma_stamped_checksum_is_zero(template, 2);
        assert(reply@.subrange(4, reply@.len() as int) =~= request@.subrange(4, request@.len() as int));
        lemma_reply_checksum_changes(request@);
    }
    Ok(reply)
}

/// Overwrites the echo identifier (bytes 4-5) and recomputes the checksum.
/// Messages shorter than an echo header are left alone.
pub fn set_echo_id(message: &mut Vec<u8>, id: u16)
    ensures
        old(message)@.len() < 8 ==> final(message)@ == old(message)@,
        old(message)@.len() >= 8 ==> final(message)@ == with_echo_id(old(message)@, id),
        old(message)@.len() >= 8 ==> checksum_of(final(message)@) == 0,
        final(message)@.len() == old(message)@.len(),
{
    if message.len() < 8 {
        return;
    }
    message.set(4, (id / 256) as u8);
    message.set(5, (id % 256) as u8);
    message.set(2, 0);
    message.set(3, 0);
    let ghost template = message@;
    let sum = internet_checksum(message.as_slice());
    message.set(2, (sum / 256) as u8);
    message.set(3, (sum % 256) as u8);
    proof {
        lemma_stamped_checksum_is_zero(template, 2);
        assert(message@ =~= with_echo_id(old(message)@, id));
    }
}

/// Rewriting the identifier of an echo message of at least 8 bytes keeps its
/// length, type, code, sequence number and data, puts `id` in bytes 4-5, and
/// leaves a message that checksums to zero.
pub proof fn lemma_echo_id_rewrite(message: Seq<u8>, id: u16)
    requires
        message.len() >= 8,
    ensures
        ({
            let r = with_echo_id(message, id);
            &&& r.len() == message.len()
            &&& r[0] == message[0]
            &&& r[1] == message[1]
            &&& be16(r[4], r[5]) == id
            &&& r.subrange(6, r.len() as int) == message.subrange(6, message.len() as int)
            &&& checksum_of(r) == 0
        }),
{
    let t = message.update(4, (id / 256) as u8).update(5, (id % 256) as u8).update(2, 0).update(3, 0);
    lemma_stamped_checksum_is_zero(t, 2);
    let r = with_echo_id(message, id);
    assert(r.subrange(6, r.len() as int) =~= message.subrange(6, message.len() as int));
}

/// A reply is never answered again: its type is 0, not 8.
pub proof fn lemma_reply_is_not_a_request(request: Seq<u8>)
    requires
        request.len() >= 8,
    ensures
        echo_reply_bytes(request)[0] != 8,
        echo_reply_bytes(request).len() >= 8,
{
}

/// The reply's checksum field always differs from the request's: the two
/// differ in the type alone otherwise, and both check to zero.
pub proof fn lemma_reply_checksum_changes(request: Seq<u8>)
    requires
        request.len() >= 8,
        request[0] == 8,
        request[1] == 0,
        checksum_of(request) == 0,
    ensures
        echo_reply_bytes(request).subrange(2, 4) != request.subrange(2, 4),
{
    let t = reply_template(request);
    let r = echo_reply_bytes(request);
    lemma_stamped_checksum_is_zero(t, 2);
    if r.subrange(2, 4) == request.subrange(2, 4) {
        assert(r[2] == r.subrange(2, 4)[0] && request[2] == request.subrange(2, 4)[0]);
        assert(r[3] == r.subrange(2, 4)[1] && request[3] == request.subrange(2, 4)[1]);
        assert(r[2] == request[2] && r[3] == request[3]);
        assert(request =~= stamp(r, 0, 2048));
        lemma_word_sum_stamp(r, 0, 2048);
        lemma_fold_add(word_sum(r), 2048);
        assert(fold16(word_sum(r)) == 0xffff);
        assert(fold16(word_sum(request)) == 2048);
        assert(false);
    }
}

} // verus!
