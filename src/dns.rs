use vstd::prelude::*;

verus! {

/// Longest decoded name, counting one trailing dot per label.
pub const MAX_NAME_LEN: usize = 256;

/// Labels are at most 63 bytes long: a length byte of 0x40 or more is rejected.
pub const LABEL_LIMIT: u8 = 0x40;

/// Decodes the labels of `src` into `acc`, each label followed by a dot.
/// `None` where the input is malformed: a length byte of 0x40 or more, a label
/// running past the end of the input, input ending before the terminating zero,
/// or a name longer than `MAX_NAME_LEN`.
pub open spec fn labels_spec(src: Seq<u8>, acc: Seq<u8>) -> Option<Seq<u8>>
    decreases src.len(),
{
    if src.len() == 0 {
        None
    } else if src[0] == 0 {
        Some(acc)
    } else {
        let len = src[0] as int;
        if len >= LABEL_LIMIT as int || src.len() < len + 1 {
            None
        } else {
            let next = acc + src.subrange(1, len + 1).push('.' as u8);
            if next.len() > MAX_NAME_LEN as int {
                None
            } else {
                labels_spec(src.subrange(len + 1, src.len() as int), next)
            }
        }
    }
}

/// The dotted name that a sequence of length-prefixed labels stands for.
pub open spec fn dns_name_spec(src: Seq<u8>) -> Option<Seq<u8>> {
    match labels_spec(src, Seq::empty()) {
        Some(name) => if name.len() == 0 {
            Some(name)
        } else {
            Some(name.drop_last())
        },
        None => None,
    }
}

/// Decodes a DNS name written as length-prefixed labels ended by a zero byte
/// (`\x06google\x03com\0` is `google.com`).
pub fn decode_dns_name(src: &[u8]) -> (r: Option<Vec<u8>>)
    ensures
        r matches Some(v) ==> dns_name_spec(src@) == Some(v@),
        r is None ==> dns_name_spec(src@) is None,
{
    let mut buf: Vec<u8> = Vec::new();
    let mut pos: usize = 0;
    assert(src@.subrange(0, src@.len() as int) =~= src@);
    loop
        invariant
            pos <= src.len(),
            buf@.len() <= MAX_NAME_LEN,
            labels_spec(src@, Seq::empty()) == labels_spec(
                src@.subrange(pos as int, src@.len() as int),
                buf@,
            ),
        ensures
            buf@.len() <= MAX_NAME_LEN,
            labels_spec(src@, Seq::empty()) == Some(buf@),
        decreases src.len() - pos,
    {
        let ghost rest = src@.subrange(pos as int, src@.len() as int);
        if pos >= src.len() {
            return None;
        }
        let len = src[pos];
        assert(rest[0] == len);
        if len == 0 {
            assert(labels_spec(rest, buf@) == Some(buf@));
            break;
        }
        if len >= LABEL_LIMIT {
            return None;
        }
        let len = len as usize;
        if src.len() - pos < len + 1 {
            return None;
        }
        if buf.len() + len + 1 > MAX_NAME_LEN {
            proof {
                assert(rest.subrange(1, len + 1).len() == len);
            }
            return None;
        }
        let mut k: usize = pos + 1;
        let ghost start = buf@;
        while k <= pos + len
            invariant
                pos + 1 <= k <= pos + len + 1,
                pos + len < src.len(),
                buf@ == start + src@.subrange(pos + 1, k as int),
            decreases pos + len + 1 - k,
        {
            buf.push(src[k]);
            k = k + 1;
        }
        buf.push('.' as u8);
        proof {
            assert(rest.subrange(1, len + 1) =~= src@.subrange(pos + 1, pos + len + 1));
            assert(rest.subrange(len + 1, rest.len() as int) =~= src@.subrange(
                pos + len + 1,
                src@.len() as int,
            ));
        }
        pos = pos + len + 1;
    }
    let ghost full = buf@;
    assert(labels_spec(src@, Seq::empty()) == Some(full));
    if buf.len() > 0 {
        buf.pop();
        assert(buf@ =~= full.drop_last());
    }
    Some(buf)
}

} // verus!
