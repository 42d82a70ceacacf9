//! The key store's configuration blobs: a set of named values in DER.

use crate::bytes::put_bytes;
use crate::errno::Errno;
use vstd::prelude::*;

verus! {

pub const TAG_SET: u8 = 0x31;

pub const TAG_SEQUENCE: u8 = 0x30;

pub const TAG_UTF8: u8 = 0x0c;

pub const TAG_INTEGER: u8 = 0x02;

pub const TAG_OCTET_STRING: u8 = 0x04;

pub const MAX_ITEM: usize = 4096;

/// The tag and the length in front of `len` bytes.
pub open spec fn header(tag: u8, len: int) -> Seq<u8> {
    if len < 0x80 {
        seq![tag, len as u8]
    } else if len <= 0xff {
        seq![tag, 0x81u8, len as u8]
    } else {
        seq![tag, 0x82u8, (len / 0x100) as u8, (len % 0x100) as u8]
    }
}

/// A value with its tag and length.
pub open spec fn tlv(tag: u8, content: Seq<u8>) -> Seq<u8> {
    header(tag, content.len() as int) + content
}

fn put_header(out: &mut Vec<u8>, tag: u8, len: usize) -> (r: Result<(), Errno>)
    ensures
        match r {
            Ok(_) => len <= 0xffff && final(out)@ == old(out)@ + header(tag, len as int),
            Err(e) => len > 0xffff && e == Errno::EINVAL,
        },
{
    if len > 0xffff {
        return Err(Errno::EINVAL);
    }
    out.push(tag);
    if len < 0x80 {
        out.push(len as u8);
    } else if len <= 0xff {
        out.push(0x81);
        out.push(len as u8);
    } else {
        out.push(0x82);
        out.push((len / 0x100) as u8);
        out.push((len % 0x100) as u8);
    }
    assert(out@ =~= old(out)@ + header(tag, len as int));
    Ok(())
}

/// The number as an integer's content: no leading zero byte but the one that
/// keeps it from reading as negative.
pub open spec fn integer_content(v: u32) -> Seq<u8> {
    let a = (v / 0x100_0000) as u8;
    let b = (v / 0x1_0000 % 0x100) as u8;
    let c = (v / 0x100 % 0x100) as u8;
    let d = (v % 0x100) as u8;
    let raw = if v >= 0x100_0000 {
        seq![a, b, c, d]
    } else if v >= 0x1_0000 {
        seq![b, c, d]
    } else if v >= 0x100 {
        seq![c, d]
    } else {
        seq![d]
    };
    if raw[0] >= 0x80 {
        seq![0u8] + raw
    } else {
        raw
    }
}

fn integer_bytes(v: u32) -> (raw: Vec<u8>)
    ensures
        raw@ == integer_content(v),
        raw.len() <= 5,
{
    let a: u8 = (v / 0x100_0000) as u8;
    let b: u8 = (v / 0x1_0000 % 0x100) as u8;
    let c: u8 = (v / 0x100 % 0x100) as u8;
    let d: u8 = (v % 0x100) as u8;
    let mut raw: Vec<u8> = Vec::new();
    let first: u8 = if v >= 0x100_0000 {
        a
    } else if v >= 0x1_0000 {
        b
    } else if v >= 0x100 {
        c
    } else {
        d
    };
    if first >= 0x80 {
        raw.push(0);
    }
    if v >= 0x100_0000 {
        raw.push(a);
    }
    if v >= 0x1_0000 {
        raw.push(b);
    }
    if v >= 0x100 {
        raw.push(c);
    }
    raw.push(d);
    assert(raw@ =~= integer_content(v));
    raw
}

/// A value of a set.
pub enum RefKeyValue {
    /// The mnemonic of an operation.
    Utf8(Vec<u8>),
    Integer(u32),
    Octets(Vec<u8>),
    /// Bytes that are DER already.
    Der(Vec<u8>),
}

/// A named value.
pub struct Item {
    pub key: Vec<u8>,
    pub value: RefKeyValue,
}

impl RefKeyValue {
    /// The value with its tag and length.
    pub open spec fn encoded(self) -> Seq<u8> {
        match self {
            RefKeyValue::Utf8(s) => tlv(TAG_UTF8, s@),
            RefKeyValue::Integer(v) => tlv(TAG_INTEGER, integer_content(v)),
            RefKeyValue::Octets(b) => tlv(TAG_OCTET_STRING, b@),
            RefKeyValue::Der(d) => d@,
        }
    }

    pub open spec fn fits(self) -> bool {
        match self {
            RefKeyValue::Utf8(s) => s.len() <= MAX_ITEM,
            RefKeyValue::Integer(v) => true,
            RefKeyValue::Octets(b) => b.len() <= MAX_ITEM,
            RefKeyValue::Der(d) => true,
        }
    }
}

impl Item {
    pub open spec fn inner(self) -> Seq<u8> {
        tlv(TAG_UTF8, self.key@) + self.value.encoded()
    }

    /// The member that the item makes: a sequence of its name and its value.
    pub open spec fn member(self) -> Seq<u8> {
        tlv(TAG_SEQUENCE, self.inner())
    }

    /// Whether the item can be a member.
    pub open spec fn fits(self) -> bool {
        &&& 0 < self.key.len() <= MAX_ITEM
        &&& self.value.fits()
        &&& self.inner().len() <= 0xffff
    }
}

/// The order of byte strings: by the first byte that differs, a prefix first.
pub open spec fn precedes(a: Seq<u8>, b: Seq<u8>) -> bool
    decreases a.len(),
{
    if b.len() == 0 {
        false
    } else if a.len() == 0 {
        true
    } else if a[0] != b[0] {
        a[0] < b[0]
    } else {
        precedes(a.subrange(1, a.len() as int), b.subrange(1, b.len() as int))
    }
}

fn before(a: &Vec<u8>, b: &Vec<u8>) -> (r: bool)
    ensures
        r == precedes(a@, b@),
{
    let mut i: usize = 0;
    assert(a@.subrange(0, a.len() as int) =~= a@);
    assert(b@.subrange(0, b.len() as int) =~= b@);
    while i < a.len() && i < b.len()
        invariant
            i <= a.len(),
            i <= b.len(),
            precedes(a@, b@) == precedes(
                a@.subrange(i as int, a.len() as int),
                b@.subrange(i as int, b.len() as int),
            ),
        decreases a.len() - i,
    {
        let ghost ra = a@.subrange(i as int, a.len() as int);
        let ghost rb = b@.subrange(i as int, b.len() as int);
        if a[i] != b[i] {
            assert(ra[0] == a@[i as int] && rb[0] == b@[i as int]);
            return a[i] < b[i];
        }
        assert(ra.subrange(1, ra.len() as int) =~= a@.subrange(i + 1, a.len() as int));
        assert(rb.subrange(1, rb.len() as int) =~= b@.subrange(i + 1, b.len() as int));
        i = i + 1;
    }
    i >= a.len() && i < b.len()
}

/// A member and the name it is ordered by.
#[verifier::ext_equal]
pub struct MemberView {
    pub key: Seq<u8>,
    pub bytes: Seq<u8>,
}

struct Member {
    key: Vec<u8>,
    bytes: Vec<u8>,
}

impl Member {
    spec fn view(&self) -> MemberView {
        MemberView { key: self.key@, bytes: self.bytes@ }
    }
}

spec fn views(ms: Seq<Member>) -> Seq<MemberView> {
    Seq::new(ms.len(), |i: int| ms[i]@)
}

/// Where a member goes among ordered ones: behind all that do not come after
/// it.
pub open spec fn place(ms: Seq<MemberView>, key: Seq<u8>, n: int) -> int
    decreases n,
{
    if n <= 0 {
        0
    } else if precedes(key, ms[n - 1].key) {
        place(ms, key, n - 1)
    } else {
        n
    }
}

/// The members of the first `n` items, ordered by name; those of one name stay
/// in the order of the items.
pub open spec fn ordered(items: Seq<Item>, n: int) -> Seq<MemberView>
    decreases n,
{
    if n <= 0 {
        Seq::empty()
    } else {
        let ms = ordered(items, n - 1);
        let m = MemberView { key: items[n - 1].key@, bytes: items[n - 1].member() };
        ms.insert(place(ms, m.key, ms.len() as int), m)
    }
}

/// The members one after the other.
pub open spec fn joined(ms: Seq<MemberView>) -> Seq<u8>
    decreases ms.len(),
{
    if ms.len() == 0 {
        Seq::empty()
    } else {
        joined(ms.drop_last()) + ms.last().bytes
    }
}

/// The set of all items.
pub open spec fn set_bytes(items: Seq<Item>) -> Seq<u8> {
    tlv(TAG_SET, joined(ordered(items, items.len() as int)))
}

/// Whether the items make a set.
pub open spec fn encodable(items: Seq<Item>) -> bool {
    &&& forall|i: int| 0 <= i < items.len() ==> (#[trigger] items[i]).fits()
    &&& joined(ordered(items, items.len() as int)).len() <= 0xffff
}

fn put_tlv(out: &mut Vec<u8>, tag: u8, content: &Vec<u8>) -> (r: Result<(), Errno>)
    ensures
        match r {
            Ok(_) => content.len() <= 0xffff && final(out)@ == old(out)@ + tlv(tag, content@),
            Err(e) => content.len() > 0xffff && e == Errno::EINVAL,
        },
{
    match put_header(out, tag, content.len()) {
        Ok(_) => {},
        Err(e) => {
            return Err(e);
        },
    }
    put_bytes(out, content);
    assert(out@ =~= old(out)@ + tlv(tag, content@));
    Ok(())
}

fn make_member(item: &Item) -> (r: Result<Vec<u8>, Errno>)
    ensures
        match r {
            Ok(m) => item.fits() && m@ == item.member(),
            Err(e) => !item.fits() && e == Errno::EINVAL,
        },
{
    if item.key.len() == 0 || item.key.len() > MAX_ITEM {
        return Err(Errno::EINVAL);
    }
    let mut inner: Vec<u8> = Vec::new();
    let _ = put_tlv(&mut inner, TAG_UTF8, &item.key);
    match &item.value {
        RefKeyValue::Utf8(s) => {
            if s.len() > MAX_ITEM {
                return Err(Errno::EINVAL);
            }
            let _ = put_tlv(&mut inner, TAG_UTF8, s);
        },
        RefKeyValue::Integer(v) => {
            let raw = integer_bytes(*v);
            let _ = put_tlv(&mut inner, TAG_INTEGER, &raw);
        },
        RefKeyValue::Octets(b) => {
            if b.len() > MAX_ITEM {
                return Err(Errno::EINVAL);
            }
            let _ = put_tlv(&mut inner, TAG_OCTET_STRING, b);
        },
        RefKeyValue::Der(d) => {
            put_bytes(&mut inner, d);
        },
    }
    assert(inner@ =~= item.inner());
    let mut seq_bytes: Vec<u8> = Vec::new();
    match put_tlv(&mut seq_bytes, TAG_SEQUENCE, &inner) {
        Ok(_) => {},
        Err(e) => {
            return Err(e);
        },
    }
    assert(seq_bytes@ =~= item.member());
    Ok(seq_bytes)
}

fn find_place(ms: &Vec<Member>, key: &Vec<u8>) -> (at: usize)
    ensures
        at == place(views(ms@), key@, ms.len() as int),
        at <= ms.len(),
{
    let mut n: usize = ms.len();
    while n > 0
        invariant
            n <= ms.len(),
            place(views(ms@), key@, ms.len() as int) == place(views(ms@), key@, n as int),
        decreases n,
    {
        if !before(key, &ms[n - 1].key) {
            return n;
        }
        n = n - 1;
    }
    0
}

/// Encodes a set, its members ordered by name as the enclave's parser wants
/// them.
pub fn encode_refkey_set(items: &Vec<Item>) -> (r: Result<Vec<u8>, Errno>)
    ensures
        match r {
            Ok(out) => encodable(items@) && out@ == set_bytes(items@),
            Err(e) => !encodable(items@) && e == Errno::EINVAL,
        },
{
    let mut members: Vec<Member> = Vec::new();
    let mut i: usize = 0;
    assert(views(members@) =~= ordered(items@, 0));
    while i < items.len()
        invariant
            i <= items.len(),
            views(members@) == ordered(items@, i as int),
            forall|j: int| 0 <= j < i ==> (#[trigger] items@[j]).fits(),
        decreases items.len() - i,
    {
        let bytes = match make_member(&items[i]) {
            Ok(m) => m,
            Err(e) => {
                assert(!items@[i as int].fits());
                return Err(e);
            },
        };
        let key = crate::bytes::copy_of(&items[i].key);
        let ghost was = views(members@);
        let at: usize = find_place(&members, &key);
        let m = Member { key, bytes };
        let ghost mv = m@;
        members.insert(at, m);
        assert(views(members@) =~= was.insert(at as int, mv));
        i = i + 1;
    }
    let mut body: Vec<u8> = Vec::new();
    let ghost ms = views(members@);
    let mut k: usize = 0;
    assert(ms.subrange(0, 0).len() == 0);
    assert(body@ =~= joined(ms.subrange(0, 0)));
    while k < members.len()
        invariant
            k <= members.len(),
            ms == views(members@),
            body@ == joined(ms.subrange(0, k as int)),
        decreases members.len() - k,
    {
        assert(ms.subrange(0, k + 1).drop_last() =~= ms.subrange(0, k as int));
        put_bytes(&mut body, &members[k].bytes);
        k = k + 1;
    }
    assert(ms.subrange(0, k as int) =~= ms);
    let mut out: Vec<u8> = Vec::new();
    match put_tlv(&mut out, TAG_SET, &body) {
        Ok(_) => {},
        Err(e) => {
            return Err(e);
        },
    }
    assert(out@ =~= set_bytes(items@));
    Ok(out)
}

/// The first value in `buf`: its tag, its content, and what follows it.
pub open spec fn taken(buf: Seq<u8>) -> Option<(u8, Seq<u8>, Seq<u8>)> {
    if buf.len() < 2 {
        None
    } else if buf[1] < 0x80 {
        split(buf, buf[1] as int, 2)
    } else if buf[1] == 0x81 && buf.len() >= 3 {
        split(buf, buf[2] as int, 3)
    } else if buf[1] == 0x82 && buf.len() >= 4 {
        split(buf, 0x100 * buf[2] + buf[3], 4)
    } else {
        None
    }
}

pub open spec fn split(buf: Seq<u8>, len: int, off: int) -> Option<(u8, Seq<u8>, Seq<u8>)> {
    if len > MAX_ITEM || off + len > buf.len() {
        None
    } else {
        Some(
            (buf[0], buf.subrange(off, off + len), buf.subrange(off + len, buf.len() as int)),
        )
    }
}

fn take_tlv(buf: &[u8]) -> (r: Option<(u8, &[u8], &[u8])>)
    ensures
        match r {
            Some((tag, content, rest)) => taken(buf@) == Some((tag, content@, rest@))
                && rest.len() < buf.len(),
            None => taken(buf@) is None,
        },
{
    if buf.len() < 2 {
        return None;
    }
    let first: u8 = buf[1];
    let len: usize;
    let off: usize;
    if first < 0x80 {
        len = first as usize;
        off = 2;
    } else if first == 0x81 {
        if buf.len() < 3 {
            return None;
        }
        len = buf[2] as usize;
        off = 3;
    } else if first == 0x82 {
        if buf.len() < 4 {
            return None;
        }
        len = 0x100 * (buf[2] as usize) + buf[3] as usize;
        off = 4;
    } else {
        return None;
    }
    if len > MAX_ITEM || len > buf.len() - off {
        return None;
    }
    Some(
        (
            buf[0],
            vstd::slice::slice_subrange(buf, off, off + len),
            vstd::slice::slice_subrange(buf, off + len, buf.len()),
        ),
    )
}

/// The value of a name among the members in `body`, with its tag and length.
/// The first member of that name has to hold one value and nothing else.
pub open spec fn value_in(body: Seq<u8>, key: Seq<u8>) -> Option<Seq<u8>>
    decreases body.len(),
{
    match taken(body) {
        None => None,
        Some((tag, member, next)) => if tag != TAG_SEQUENCE || next.len() >= body.len() {
            None
        } else {
            match taken(member) {
                None => None,
                Some((key_tag, name, value)) => if key_tag != TAG_UTF8 {
                    None
                } else if name == key {
                    match taken(value) {
                        Some((_, _, rest)) => if rest.len() == 0 {
                            Some(value)
                        } else {
                            None
                        },
                        None => None,
                    }
                } else {
                    value_in(next, key)
                },
            }
        },
    }
}

/// The value of a name in a set.
pub open spec fn found(set_blob: Seq<u8>, key: Seq<u8>) -> Option<Seq<u8>> {
    match taken(set_blob) {
        Some((tag, body, rest)) => if tag == TAG_SET && rest.len() == 0 {
            value_in(body, key)
        } else {
            None
        },
        None => None,
    }
}

/// Looks a name up in a set.
pub fn refkey_find<'a>(set_blob: &'a [u8], key: &[u8]) -> (r: Option<&'a [u8]>)
    ensures
        match r {
            Some(v) => found(set_blob@, key@) == Some(v@),
            None => found(set_blob@, key@) is None,
        },
{
    let mut body: &'a [u8] = match take_tlv(set_blob) {
        Some((tag, body, rest)) => {
            if tag != TAG_SET || rest.len() != 0 {
                return None;
            }
            body
        },
        None => {
            return None;
        },
    };
    loop
        invariant
            found(set_blob@, key@) == value_in(body@, key@),
        decreases body.len(),
    {
        let (tag, member, next) = match take_tlv(body) {
            Some(t) => t,
            None => {
                return None;
            },
        };
        if tag != TAG_SEQUENCE {
            return None;
        }
        let (key_tag, name, value) = match take_tlv(member) {
            Some(t) => t,
            None => {
                return None;
            },
        };
        if key_tag != TAG_UTF8 {
            return None;
        }
        if crate::bytes::same(name, key) {
            return match take_tlv(value) {
                Some((_, _, rest)) => {
                    if rest.len() != 0 {
                        None
                    } else {
                        Some(value)
                    }
                },
                None => None,
            };
        }
        body = next;
    }
}

/// The content of an octet string that is all there is.
pub open spec fn octets_in(b: Seq<u8>) -> Option<Seq<u8>> {
    match taken(b) {
        Some((tag, body, rest)) => if tag == TAG_OCTET_STRING && rest.len() == 0 {
            Some(body)
        } else {
            None
        },
        None => None,
    }
}

pub fn octet_string_body(b: &[u8]) -> (r: Option<&[u8]>)
    ensures
        match r {
            Some(v) => octets_in(b@) == Some(v@),
            None => octets_in(b@) is None,
        },
{
    match take_tlv(b) {
        Some((tag, body, rest)) => {
            if tag == TAG_OCTET_STRING && rest.len() == 0 {
                Some(body)
            } else {
                None
            }
        },
        None => None,
    }
}

/// A value that is encoded is taken back, whatever follows it.
pub proof fn tlv_round_trip(tag: u8, content: Seq<u8>, rest: Seq<u8>)
    requires
        content.len() <= MAX_ITEM,
    ensures
        taken(tlv(tag, content) + rest) == Some((tag, content, rest)),
{
    let buf = tlv(tag, content) + rest;
    let n = content.len() as int;
    let h = header(tag, n);
    assert(buf =~= h + (content + rest));
    assert(buf.subrange(h.len() as int, h.len() + n) =~= content);
    assert(buf.subrange(h.len() + n, buf.len() as int) =~= rest);
}

/// The names are all there, in order.
pub proof fn members_are_ordered(items: Seq<Item>, n: int)
    requires
        0 <= n <= items.len(),
    ensures
        ordered(items, n).len() == n,
        forall|i: int, j: int|
            0 <= i < j < n ==> !precedes(
                (#[trigger] ordered(items, n)[j]).key,
                (#[trigger] ordered(items, n)[i]).key,
            ),
        ordered(items, n).to_multiset() == Seq::new(
            n as nat,
            |i: int| MemberView { key: items[i].key@, bytes: items[i].member() },
        ).to_multiset(),
    decreases n,
{
    let all = |k: int|
        Seq::new(
            k as nat,
            |i: int| MemberView { key: items[i].key@, bytes: items[i].member() },
        );
    if n <= 0 {
        assert(all(0) =~= Seq::empty());
    } else {
        members_are_ordered(items, n - 1);
        let ms = ordered(items, n - 1);
        let m = MemberView { key: items[n - 1].key@, bytes: items[n - 1].member() };
        let at = place(ms, m.key, ms.len() as int);
        place_bounds(ms, m.key, ms.len() as int);
        let out = ms.insert(at, m);
        assert forall|i: int, j: int| 0 <= i < j < n implies !precedes(
            (#[trigger] out[j]).key,
            (#[trigger] out[i]).key,
        ) by {
            if i == at {
                assert(out[j] == ms[j - 1]);
                place_after(ms, m.key, ms.len() as int, j - 1);
                precedes_asymmetric(m.key, ms[j - 1].key);
            } else if j == at {
                assert(out[i] == ms[i]);
                if at > 0 {
                    place_before(ms, m.key, ms.len() as int);
                    if i < at - 1 {
                        assert(!precedes(ms[at - 1].key, ms[i].key));
                        precedes_not_transitive(m.key, ms[at - 1].key, ms[i].key);
                    }
                }
            } else {
                let a = if i < at {
                    i
                } else {
                    i - 1
                };
                let b = if j < at {
                    j
                } else {
                    j - 1
                };
                assert(out[i] == ms[a] && out[j] == ms[b]);
            }
        }
        assert(all(n) =~= all(n - 1).push(m));
        broadcast use vstd::seq_lib::group_to_multiset_ensures;

        assert(out.to_multiset() =~= all(n).to_multiset());
    }
}

proof fn place_bounds(ms: Seq<MemberView>, key: Seq<u8>, n: int)
    requires
        0 <= n <= ms.len(),
    ensures
        0 <= place(ms, key, n) <= n,
    decreases n,
{
    if n > 0 {
        place_bounds(ms, key, n - 1);
    }
}

proof fn place_after(ms: Seq<MemberView>, key: Seq<u8>, n: int, k: int)
    requires
        0 <= n <= ms.len(),
        place(ms, key, n) <= k < n,
    ensures
        precedes(key, ms[k].key),
    decreases n,
{
    if k < n - 1 {
        place_after(ms, key, n - 1, k);
    }
}

proof fn place_before(ms: Seq<MemberView>, key: Seq<u8>, n: int)
    requires
        0 <= n <= ms.len(),
        place(ms, key, n) > 0,
    ensures
        !precedes(key, ms[place(ms, key, n) - 1].key),
    decreases n,
{
    if n > 0 && precedes(key, ms[n - 1].key) {
        place_before(ms, key, n - 1);
    }
}

proof fn precedes_asymmetric(a: Seq<u8>, b: Seq<u8>)
    requires
        precedes(a, b),
    ensures
        !precedes(b, a),
    decreases a.len(),
{
    if a.len() > 0 && b.len() > 0 && a[0] == b[0] {
        precedes_asymmetric(a.subrange(1, a.len() as int), b.subrange(1, b.len() as int));
    }
}

proof fn precedes_not_transitive(a: Seq<u8>, b: Seq<u8>, c: Seq<u8>)
    requires
        !precedes(a, b),
        !precedes(b, c),
    ensures
        !precedes(a, c),
    decreases a.len(),
{
    if a.len() > 0 && b.len() > 0 && c.len() > 0 && a[0] == b[0] && b[0] == c[0] {
        precedes_not_transitive(
            a.subrange(1, a.len() as int),
            b.subrange(1, b.len() as int),
            c.subrange(1, c.len() as int),
        );
    }
}

/// One value and nothing else.
pub open spec fn is_single(v: Seq<u8>) -> bool {
    taken(v) matches Some((_, _, rest)) && rest.len() == 0
}

pub open spec fn member_of(item: Item) -> MemberView {
    MemberView { key: item.key@, bytes: item.member() }
}

proof fn joined_front(ms: Seq<MemberView>)
    requires
        ms.len() > 0,
    ensures
        joined(ms) == ms[0].bytes + joined(ms.subrange(1, ms.len() as int)),
    decreases ms.len(),
{
    let tail = ms.subrange(1, ms.len() as int);
    if ms.len() == 1 {
        assert(joined(ms.drop_last()) =~= Seq::<u8>::empty());
        assert(joined(tail) =~= Seq::<u8>::empty());
        assert(ms.last() == ms[0]);
        assert(joined(ms) =~= ms[0].bytes + joined(tail));
    } else {
        let init = ms.drop_last();
        joined_front(init);
        assert(init.subrange(1, init.len() as int) =~= tail.drop_last());
        assert(tail.last() == ms.last());
        assert(joined(tail) == joined(tail.drop_last()) + ms.last().bytes);
        assert(joined(ms) =~= ms[0].bytes + joined(tail));
    }
}

proof fn ordered_has(items: Seq<Item>, n: int, k: int)
    requires
        0 <= k < n <= items.len(),
    ensures
        exists|i: int|
            0 <= i < ordered(items, n).len() && #[trigger] ordered(items, n)[i] == member_of(
                items[k],
            ),
    decreases n,
{
    let ms = ordered(items, n - 1);
    let m = member_of(items[n - 1]);
    let at = place(ms, m.key, ms.len() as int);
    place_bounds(ms, m.key, ms.len() as int);
    let out = ordered(items, n);
    if k == n - 1 {
        assert(out[at] == m);
    } else {
        ordered_has(items, n - 1, k);
        let i = choose|i: int| 0 <= i < ms.len() && #[trigger] ms[i] == member_of(items[k]);
        if i < at {
            assert(out[i] == ms[i]);
        } else {
            assert(out[i + 1] == ms[i]);
        }
    }
}

proof fn ordered_comes_from(items: Seq<Item>, n: int, i: int)
    requires
        0 <= n <= items.len(),
        0 <= i < ordered(items, n).len(),
    ensures
        exists|k: int|
            0 <= k < n && ordered(items, n)[i] == #[trigger] member_of(items[k]),
    decreases n,
{
    if n > 0 {
        let ms = ordered(items, n - 1);
        let m = member_of(items[n - 1]);
        let at = place(ms, m.key, ms.len() as int);
        place_bounds(ms, m.key, ms.len() as int);
        if i == at {
            assert(ordered(items, n)[i] == member_of(items[n - 1]));
        } else {
            let a = if i < at {
                i
            } else {
                i - 1
            };
            assert(ordered(items, n)[i] == ms[a]);
            ordered_comes_from(items, n - 1, a);
        }
    }
}

/// Members that can be told apart by name: the value of the one named `key` is
/// found among them.
proof fn value_is_in(items: Seq<Item>, ms: Seq<MemberView>, item: Item)
    requires
        joined(ms).len() <= MAX_ITEM,
        forall|i: int|
            0 <= i < ms.len() ==> exists|k: int|
                0 <= k < items.len() && #[trigger] ms[i] == #[trigger] member_of(items[k]),
        exists|i: int| 0 <= i < ms.len() && #[trigger] ms[i] == member_of(item),
        forall|k: int|
            0 <= k < items.len() && (#[trigger] items[k]).key@ == item.key@ ==> items[k] == item,
        is_single(item.value.encoded()),
    ensures
        value_in(joined(ms), item.key@) == Some(item.value.encoded()),
    decreases ms.len(),
{
    joined_front(ms);
    let rest = ms.subrange(1, ms.len() as int);
    let k = choose|k: int| 0 <= k < items.len() && ms[0] == #[trigger] member_of(items[k]);
    assert(ms[0] == member_of(items[k])) by {
        assert(exists|k: int|
            0 <= k < items.len() && #[trigger] ms[0] == #[trigger] member_of(items[k]));
    }
    let head = items[k];
    let inner = head.inner();
    let name = head.key@;
    assert(ms[0].bytes == tlv(TAG_SEQUENCE, inner));
    assert(joined(ms).len() == ms[0].bytes.len() + joined(rest).len());
    tlv_round_trip(TAG_SEQUENCE, inner, joined(rest));
    assert(name.len() <= inner.len());
    tlv_round_trip(TAG_UTF8, name, head.value.encoded());
    if name == item.key@ {
        assert(head == item);
    } else {
        let i = choose|i: int| 0 <= i < ms.len() && #[trigger] ms[i] == member_of(item);
        assert(i != 0);
        assert(rest[i - 1] == member_of(item));
        assert forall|j: int| 0 <= j < rest.len() implies exists|k: int|
            0 <= k < items.len() && #[trigger] rest[j] == #[trigger] member_of(items[k]) by {
            assert(rest[j] == ms[j + 1]);
        }
        value_is_in(items, rest, item);
    }
}

/// What a set is made of can be looked up in it: under each name, if no other
/// item has it, stands the value that was put in. The set has to be short
/// enough to be read at all, and a value that came as DER has to be one value.
pub proof fn find_gives_back_encode(items: Seq<Item>, k: int)
    requires
        encodable(items),
        joined(ordered(items, items.len() as int)).len() <= MAX_ITEM,
        0 <= k < items.len(),
        forall|i: int|
            0 <= i < items.len() && (#[trigger] items[i]).key@ == items[k].key@ ==> items[i]
                == items[k],
        is_single(items[k].value.encoded()),
    ensures
        found(set_bytes(items), items[k].key@) == Some(items[k].value.encoded()),
{
    let n = items.len() as int;
    let ms = ordered(items, n);
    let none = Seq::<u8>::empty();
    tlv_round_trip(TAG_SET, joined(ms), none);
    assert(set_bytes(items) + none =~= set_bytes(items));
    ordered_has(items, n, k);
    assert forall|i: int| 0 <= i < ms.len() implies exists|j: int|
        0 <= j < items.len() && #[trigger] ms[i] == #[trigger] member_of(items[j]) by {
        ordered_comes_from(items, n, i);
    }
    value_is_in(items, ms, items[k]);
}

/// An octet string is read back.
pub proof fn octets_round_trip(b: Seq<u8>)
    requires
        b.len() <= MAX_ITEM,
    ensures
        octets_in(tlv(TAG_OCTET_STRING, b)) == Some(b),
        is_single(tlv(TAG_OCTET_STRING, b)),
{
    let none = Seq::<u8>::empty();
    tlv_round_trip(TAG_OCTET_STRING, b, none);
    assert(tlv(TAG_OCTET_STRING, b) + none =~= tlv(TAG_OCTET_STRING, b));
}

/// A name that no member has is not found among them.
proof fn name_is_not_in(items: Seq<Item>, ms: Seq<MemberView>, key: Seq<u8>)
    requires
        joined(ms).len() <= MAX_ITEM,
        forall|i: int|
            0 <= i < ms.len() ==> exists|k: int|
                0 <= k < items.len() && #[trigger] ms[i] == #[trigger] member_of(items[k]),
        forall|k: int| 0 <= k < items.len() ==> (#[trigger] items[k]).key@ != key,
    ensures
        value_in(joined(ms), key) is None,
    decreases ms.len(),
{
    if ms.len() > 0 {
        joined_front(ms);
        let rest = ms.subrange(1, ms.len() as int);
        let k = choose|k: int| 0 <= k < items.len() && ms[0] == #[trigger] member_of(items[k]);
        assert(ms[0] == member_of(items[k])) by {
            assert(exists|k: int|
                0 <= k < items.len() && #[trigger] ms[0] == #[trigger] member_of(items[k]));
        }
        let head = items[k];
        let inner = head.inner();
        let name = head.key@;
        assert(ms[0].bytes == tlv(TAG_SEQUENCE, inner));
        assert(joined(ms).len() == ms[0].bytes.len() + joined(rest).len());
        tlv_round_trip(TAG_SEQUENCE, inner, joined(rest));
        assert(name.len() <= inner.len());
        tlv_round_trip(TAG_UTF8, name, head.value.encoded());
        assert forall|j: int| 0 <= j < rest.len() implies exists|k: int|
            0 <= k < items.len() && #[trigger] rest[j] == #[trigger] member_of(items[k]) by {
            assert(rest[j] == ms[j + 1]);
        }
        name_is_not_in(items, rest, key);
    }
}

/// A name that no item has is not found in the set that the items make.
pub proof fn absent_name_is_not_found(items: Seq<Item>, key: Seq<u8>)
    requires
        encodable(items),
        forall|i: int| 0 <= i < items.len() ==> (#[trigger] items[i]).key@ != key,
    ensures
        found(set_bytes(items), key) is None,
{
    let n = items.len() as int;
    let ms = ordered(items, n);
    let body = joined(ms);
    let none = Seq::<u8>::empty();
    if body.len() <= MAX_ITEM {
        tlv_round_trip(TAG_SET, body, none);
        assert(set_bytes(items) + none =~= set_bytes(items));
        assert forall|i: int| 0 <= i < ms.len() implies exists|j: int|
            0 <= j < items.len() && #[trigger] ms[i] == #[trigger] member_of(items[j]) by {
            ordered_comes_from(items, n, i);
        }
        name_is_not_in(items, ms, key);
    } else {
        let set = set_bytes(items);
        assert(set[1] == 0x82);
        assert(0x100 * set[2] + set[3] == body.len());
    }
}

/// The order of members: by name, and by their bytes under the same name.
spec fn not_after(a: MemberView, b: MemberView) -> bool {
    precedes(a.key, b.key) || a.key == b.key && !precedes(b.bytes, a.bytes)
}

proof fn precedes_total(a: Seq<u8>, b: Seq<u8>)
    ensures
        a == b || precedes(a, b) || precedes(b, a),
        !precedes(a, a),
    decreases a.len(),
{
    if a.len() > 0 && b.len() > 0 && a[0] == b[0] {
        let ra = a.subrange(1, a.len() as int);
        let rb = b.subrange(1, b.len() as int);
        precedes_total(ra, rb);
        if ra == rb {
            assert(a =~= seq![a[0]] + ra);
            assert(b =~= seq![b[0]] + rb);
        }
    } else if a.len() == 0 && b.len() == 0 {
        assert(a =~= b);
    }
    if a.len() > 0 {
        precedes_total(a.subrange(1, a.len() as int), a.subrange(1, a.len() as int));
    }
}

proof fn precedes_transitive(a: Seq<u8>, b: Seq<u8>, c: Seq<u8>)
    requires
        precedes(a, b),
        precedes(b, c),
    ensures
        precedes(a, c),
    decreases a.len(),
{
    if a.len() > 0 && b.len() > 0 && c.len() > 0 && a[0] == b[0] && b[0] == c[0] {
        precedes_transitive(
            a.subrange(1, a.len() as int),
            b.subrange(1, b.len() as int),
            c.subrange(1, c.len() as int),
        );
    }
}

proof fn order_is_total()
    ensures
        vstd::relations::total_ordering(|a: MemberView, b: MemberView| not_after(a, b)),
{
    let leq = |a: MemberView, b: MemberView| not_after(a, b);
    assert forall|x: MemberView| #[trigger] leq(x, x) by {
        precedes_total(x.bytes, x.bytes);
    }
    assert forall|x: MemberView, y: MemberView| #[trigger] leq(x, y) && #[trigger] leq(
        y,
        x,
    ) implies x == y by {
        if precedes(x.key, y.key) {
            precedes_asymmetric(x.key, y.key);
            precedes_total(x.key, y.key);
        }
        if precedes(y.key, x.key) {
            precedes_asymmetric(y.key, x.key);
            precedes_total(y.key, x.key);
        }
        precedes_total(x.bytes, y.bytes);
        assert(x =~= y);
    }
    assert forall|x: MemberView, y: MemberView, z: MemberView| #[trigger] leq(x, y)
        && #[trigger] leq(y, z) implies leq(x, z) by {
        if precedes(x.key, y.key) && precedes(y.key, z.key) {
            precedes_transitive(x.key, y.key, z.key);
        } else if x.key == y.key && y.key == z.key {
            precedes_not_transitive(z.bytes, y.bytes, x.bytes);
        }
    }
    assert forall|x: MemberView, y: MemberView| #[trigger] leq(x, y) || #[trigger] leq(y, x) by {
        precedes_total(x.key, y.key);
        if x.key == y.key && precedes(x.bytes, y.bytes) {
            precedes_asymmetric(x.bytes, y.bytes);
        }
    }
}

spec fn members(items: Seq<Item>) -> Seq<MemberView> {
    Seq::new(items.len(), |i: int| member_of(items[i]))
}

/// Items that are the same but for their order make the same members.
proof fn members_keep_multiset(a: Seq<Item>, b: Seq<Item>)
    requires
        a.to_multiset() == b.to_multiset(),
    ensures
        members(a).to_multiset() == members(b).to_multiset(),
    decreases a.len(),
{
    broadcast use vstd::seq_lib::group_to_multiset_ensures;

    assert(a.len() == a.to_multiset().len());
    assert(b.len() == b.to_multiset().len());
    if a.len() == 0 {
        assert(members(a) =~= members(b));
    } else {
        let x = a.last();
        let n = a.len() - 1;
        assert(a.contains(x));
        assert(a.to_multiset().count(x) > 0);
        assert(b.contains(x));
        let j = choose|j: int| 0 <= j < b.len() && b[j] == x;
        let ra = a.remove(n);
        let rb = b.remove(j);
        assert(ra.to_multiset() =~= rb.to_multiset());
        members_keep_multiset(ra, rb);
        assert(members(a).remove(n) =~= members(ra));
        assert(members(b).remove(j) =~= members(rb));
        let ma = members(a);
        let mb = members(b);
        assert(ma[n] == member_of(x) && mb[j] == member_of(x));
        assert(members(ra).to_multiset() == ma.to_multiset().remove(member_of(x)));
        assert(members(rb).to_multiset() == mb.to_multiset().remove(member_of(x)));
        assert(ma.contains(member_of(x)) && mb.contains(member_of(x)));
        assert(ma.to_multiset() =~= ma.to_multiset().remove(member_of(x)).insert(member_of(x)));
        assert(mb.to_multiset() =~= mb.to_multiset().remove(member_of(x)).insert(member_of(x)));
    }
}

/// No two items have the same name.
pub open spec fn names_differ(items: Seq<Item>) -> bool {
    forall|i: int, j: int|
        0 <= i < j < items.len() ==> (#[trigger] items[i]).key@ != (#[trigger] items[j]).key@
}

proof fn ordered_is_sorted(items: Seq<Item>)
    requires
        names_differ(items),
    ensures
        vstd::relations::sorted_by(
            ordered(items, items.len() as int),
            |a: MemberView, b: MemberView| not_after(a, b),
        ),
        ordered(items, items.len() as int).to_multiset() == members(items).to_multiset(),
{
    let n = items.len() as int;
    let ms = ordered(items, n);
    members_are_ordered(items, n);
    assert(members(items) =~= Seq::new(
        n as nat,
        |i: int| MemberView { key: items[i].key@, bytes: items[i].member() },
    ));
    names_stay_apart(items, n);
    let leq = |a: MemberView, b: MemberView| not_after(a, b);
    assert forall|i: int, j: int| 0 <= i < j < ms.len() implies #[trigger] leq(ms[i], ms[j]) by {
        assert(!precedes(ms[j].key, ms[i].key));
        assert(ms[i].key != ms[j].key);
        precedes_total(ms[i].key, ms[j].key);
    }
}

/// Members of differing names have differing names in whatever order.
proof fn names_stay_apart(items: Seq<Item>, n: int)
    requires
        names_differ(items),
        0 <= n <= items.len(),
    ensures
        forall|i: int, j: int|
            0 <= i < j < ordered(items, n).len() ==> (#[trigger] ordered(items, n)[i]).key
                != (#[trigger] ordered(items, n)[j]).key,
    decreases n,
{
    if n > 0 {
        names_stay_apart(items, n - 1);
        let ms = ordered(items, n - 1);
        let m = member_of(items[n - 1]);
        let at = place(ms, m.key, ms.len() as int);
        place_bounds(ms, m.key, ms.len() as int);
        let out = ordered(items, n);
        assert forall|a: int| 0 <= a < ms.len() implies (#[trigger] ms[a]).key != m.key by {
            ordered_comes_from(items, n - 1, a);
            let k = choose|k: int| 0 <= k < n - 1 && ms[a] == #[trigger] member_of(items[k]);
            assert(items[k].key@ != items[n - 1].key@);
        }
        assert forall|i: int, j: int| 0 <= i < j < out.len() implies (#[trigger] out[i]).key
            != (#[trigger] out[j]).key by {
            let a = if i < at {
                i
            } else {
                i - 1
            };
            let b = if j < at {
                j
            } else {
                j - 1
            };
            if i != at {
                assert(out[i] == ms[a]);
            }
            if j != at {
                assert(out[j] == ms[b]);
            }
        }
    }
}

/// The order of the items does not matter: the same items in another order, no
/// two of the same name, make the same set, and make one or none alike.
pub proof fn order_of_items_is_nothing(items: Seq<Item>, other: Seq<Item>)
    requires
        items.to_multiset() == other.to_multiset(),
        names_differ(items),
    ensures
        encodable(other) == encodable(items),
        set_bytes(other) == set_bytes(items),
{
    broadcast use vstd::seq_lib::group_to_multiset_ensures;

    assert(items.len() == items.to_multiset().len());
    assert(other.len() == other.to_multiset().len());
    members_keep_multiset(items, other);
    assert(names_differ(other)) by {
        reordered_names_differ(items, other);
    }
    ordered_is_sorted(items);
    ordered_is_sorted(other);
    order_is_total();
    let leq = |a: MemberView, b: MemberView| not_after(a, b);
    vstd::seq_lib::lemma_sorted_unique(
        ordered(items, items.len() as int),
        ordered(other, other.len() as int),
        leq,
    );
    assert forall|x: Item| items.contains(x) <==> other.contains(x) by {
        assert(items.contains(x) <==> items.to_multiset().count(x) > 0);
        assert(other.contains(x) <==> other.to_multiset().count(x) > 0);
    }
    if encodable(items) {
        assert forall|i: int| 0 <= i < other.len() implies (#[trigger] other[i]).fits() by {
            assert(other.contains(other[i]));
            let j = choose|j: int| 0 <= j < items.len() && items[j] == other[i];
            assert(items[j].fits());
        }
    }
    if encodable(other) {
        assert forall|i: int| 0 <= i < items.len() implies (#[trigger] items[i]).fits() by {
            assert(items.contains(items[i]));
            let j = choose|j: int| 0 <= j < other.len() && other[j] == items[i];
            assert(other[j].fits());
        }
    }
}

proof fn reordered_names_differ(items: Seq<Item>, other: Seq<Item>)
    requires
        items.to_multiset() == other.to_multiset(),
        names_differ(items),
    ensures
        names_differ(other),
{
    broadcast use vstd::seq_lib::group_to_multiset_ensures;

    assert(items.no_duplicates()) by {
        assert forall|i: int, j: int|
            0 <= i < items.len() && 0 <= j < items.len() && i != j implies items[i] != items[j] by {
            if i < j {
                assert(items[i].key@ != items[j].key@);
            } else {
                assert(items[j].key@ != items[i].key@);
            }
        }
    }
    items.lemma_multiset_has_no_duplicates();
    other.lemma_multiset_has_no_duplicates_conv();
    assert forall|i: int, j: int| 0 <= i < j < other.len() implies (#[trigger] other[i]).key@
        != (#[trigger] other[j]).key@ by {
        assert(other.contains(other[i]) && other.contains(other[j]));
        assert(other.to_multiset().count(other[i]) > 0 && other.to_multiset().count(other[j]) > 0);
        assert(items.contains(other[i]) && items.contains(other[j]));
        let a = choose|a: int| 0 <= a < items.len() && items[a] == other[i];
        let b = choose|b: int| 0 <= b < items.len() && items[b] == other[j];
        assert(other[i] != other[j]);
        assert(a != b);
        if a < b {
            assert(items[a].key@ != items[b].key@);
        } else {
            assert(items[b].key@ != items[a].key@);
        }
    }
}

/// The length stands in one byte up to 127, in one behind an 0x81 up to 255, and in two,
/// high byte first, behind an 0x82 from there on.
pub proof fn lengths_are_laid_out(tag: u8, content: Seq<u8>, hi: u8, lo: u8)
    ensures
        content.len() < 128 ==> tlv(tag, content) == seq![tag, content.len() as u8] + content,
        128 <= content.len() < 256 ==> tlv(tag, content) == seq![tag, 0x81u8, content.len() as u8]
            + content,
        content.len() >= 256 && content.len() == 0x100 * hi + lo ==> tlv(tag, content) == seq![
            tag,
            0x82u8,
            hi,
            lo,
        ] + content,
{
}

/// A value is known by its tag: 0x0c for a string, 0x02 for an integer and 0x04 for bytes;
/// what is DER already stands as it is. A member is a sequence, 0x30, of its name and its
/// value, and all members make a set, 0x31.
pub proof fn values_are_tagged(s: Vec<u8>, v: u32, item: Item, items: Seq<Item>)
    ensures
        RefKeyValue::Utf8(s).encoded() == tlv(0x0c, s@),
        RefKeyValue::Integer(v).encoded() == tlv(0x02, integer_content(v)),
        RefKeyValue::Octets(s).encoded() == tlv(0x04, s@),
        RefKeyValue::Der(s).encoded() == s@,
        item.member() == tlv(0x30, tlv(0x0c, item.key@) + item.value.encoded()),
        set_bytes(items) == tlv(0x31, joined(ordered(items, items.len() as int))),
{
}

/// The number that bytes hold, the most significant first.
pub open spec fn big_endian(b: Seq<u8>) -> int
    decreases b.len(),
{
    if b.len() == 0 {
        0
    } else {
        0x100 * big_endian(b.drop_last()) + b.last()
    }
}

/// One byte more is so many times 0x100 and the byte.
proof fn big_endian_push(s: Seq<u8>, b: u8)
    ensures
        big_endian(s.push(b)) == 0x100 * big_endian(s) + b,
{
    assert(s.push(b).drop_last() =~= s);
}

/// What one to five bytes hold.
proof fn big_endian_short(z: u8, a: u8, b: u8, c: u8, d: u8)
    ensures
        big_endian(seq![d]) == d,
        big_endian(seq![c, d]) == 0x100 * c + d,
        big_endian(seq![b, c, d]) == 0x1_0000 * b + 0x100 * c + d,
        big_endian(seq![a, b, c, d]) == 0x100_0000 * a + 0x1_0000 * b + 0x100 * c + d,
        big_endian(seq![z, a, b, c, d]) == 0x1_0000_0000 * z + 0x100_0000 * a + 0x1_0000 * b
            + 0x100 * c + d,
{
    let e = Seq::<u8>::empty();
    assert(big_endian(e) == 0);
    big_endian_push(e, d);
    assert(e.push(d) =~= seq![d]);
    big_endian_push(e, c);
    big_endian_push(e.push(c), d);
    assert(e.push(c).push(d) =~= seq![c, d]);
    big_endian_push(e, b);
    big_endian_push(e.push(b), c);
    big_endian_push(e.push(b).push(c), d);
    assert(e.push(b).push(c).push(d) =~= seq![b, c, d]);
    big_endian_push(e, a);
    big_endian_push(e.push(a), b);
    big_endian_push(e.push(a).push(b), c);
    big_endian_push(e.push(a).push(b).push(c), d);
    assert(e.push(a).push(b).push(c).push(d) =~= seq![a, b, c, d]);
    big_endian_push(e, z);
    big_endian_push(e.push(z), a);
    big_endian_push(e.push(z).push(a), b);
    big_endian_push(e.push(z).push(a).push(b), c);
    big_endian_push(e.push(z).push(a).push(b).push(c), d);
    assert(e.push(z).push(a).push(b).push(c).push(d) =~= seq![z, a, b, c, d]);
}

/// The content of an integer is the number, most significant byte first, in as few bytes
/// as keep the first below 0x80.
pub proof fn integers_read_back(v: u32)
    ensures
        big_endian(integer_content(v)) == v,
        1 <= integer_content(v).len() <= 5,
        integer_content(v)[0] < 0x80,
        integer_content(v).len() > 1 && integer_content(v)[0] == 0 ==> integer_content(v)[1]
            >= 0x80,
{
    let s = integer_content(v);
    let k1 = v as int / 0x100;
    let k2 = v as int / 0x1_0000;
    let k3 = v as int / 0x100_0000;
    vstd::arithmetic::div_mod::lemma_div_denominator(v as int, 0x100, 0x100);
    vstd::arithmetic::div_mod::lemma_div_denominator(v as int, 0x1_0000, 0x100);
    assert(k2 == k1 / 0x100 && k3 == k2 / 0x100);
    let a = k3 as u8;
    let b = (k2 % 0x100) as u8;
    let c = (k1 % 0x100) as u8;
    let d = (v % 0x100) as u8;
    assert(v == 0x100_0000 * a + 0x1_0000 * b + 0x100 * c + d);
    big_endian_short(0, a, b, c, d);
    big_endian_short(0, 0, b, c, d);
    big_endian_short(0, 0, 0, c, d);
    if v >= 0x100_0000 {
        if a >= 0x80 {
            assert(s =~= seq![0u8, a, b, c, d]);
        } else {
            assert(s =~= seq![a, b, c, d]);
        }
    } else if v >= 0x1_0000 {
        assert(a == 0);
        if b >= 0x80 {
            assert(s =~= seq![0u8, b, c, d]);
        } else {
            assert(s =~= seq![b, c, d]);
        }
    } else if v >= 0x100 {
        assert(a == 0 && b == 0);
        if c >= 0x80 {
            assert(s =~= seq![0u8, c, d]);
        } else {
            assert(s =~= seq![c, d]);
        }
    } else {
        assert(a == 0 && b == 0 && c == 0);
        if d >= 0x80 {
            assert(s =~= seq![0u8, d]);
        } else {
            assert(s =~= seq![d]);
        }
    }
}

/// Names are ordered by the first byte that differs, and a name stands before the ones
/// that it starts.
pub proof fn names_are_ordered(p: Seq<u8>, x: u8, y: u8, a: Seq<u8>, b: Seq<u8>)
    ensures
        x < y ==> precedes(p + seq![x] + a, p + seq![y] + b),
        x > y ==> !precedes(p + seq![x] + a, p + seq![y] + b),
        precedes(p, p + seq![x] + a),
        !precedes(p + seq![x] + a, p),
        !precedes(p, p),
    decreases p.len(),
{
    let s = p + seq![x] + a;
    let t = p + seq![y] + b;
    if p.len() > 0 {
        let q = p.subrange(1, p.len() as int);
        names_are_ordered(q, x, y, a, b);
        assert(s.subrange(1, s.len() as int) =~= q + seq![x] + a);
        assert(t.subrange(1, t.len() as int) =~= q + seq![y] + b);
    }
}

/// What is not read: fewer than two bytes, a length in more than two bytes, a length past
/// the end, and more than 4096 bytes.
pub proof fn unreadable_values(buf: Seq<u8>)
    ensures
        buf.len() < 2 ==> taken(buf) is None,
        buf.len() >= 2 && (buf[1] == 0x80 || buf[1] > 0x82) ==> taken(buf) is None,
        buf.len() >= 2 && buf[1] < 0x80 && buf.len() < 2 + buf[1] ==> taken(buf) is None,
        buf.len() >= 4 && buf[1] == 0x82 && 0x100 * buf[2] + buf[3] > 4096 ==> taken(buf) is None,
        taken(buf) matches Some((tag, content, rest)) ==> tag == buf[0] && content.len() <= 4096
            && content.len() + rest.len() < buf.len(),
{
}

/// Nothing is found in what is no set or has bytes behind the set, and no octet string is
/// read from another kind of value or from one with bytes behind it.
pub proof fn strays_are_not_read(tag: u8, content: Seq<u8>, rest: Seq<u8>, key: Seq<u8>)
    requires
        content.len() <= 4096,
    ensures
        tag != 0x31 ==> found(tlv(tag, content) + rest, key) is None,
        rest.len() > 0 ==> found(tlv(tag, content) + rest, key) is None,
        tag != 0x04 ==> octets_in(tlv(tag, content) + rest) is None,
        rest.len() > 0 ==> octets_in(tlv(tag, content) + rest) is None,
        octets_in(tlv(0x04, content)) == Some(content),
{
    tlv_round_trip(tag, content, rest);
    octets_round_trip(content);
}

} // verus!
