use vstd::prelude::*;

use super::binarydata::BinaryData;
use super::error::PacketError;
use super::utils::{be_bytes, be_value, signed_of, i32_to_be, slice_to_i32, slice_to_u32, u32_to_be, lemma_be_value_of_bytes, lemma_bytes_of_be_value};

verus! {

/// A message of the wire protocol: a method number and a list of byte items.
pub struct Packet {
    method: i32,
    data: Vec<BinaryData>,
}

/// What a packet holds, as mathematical values.
pub ghost struct PacketModel {
    pub method: i32,
    pub items: Seq<Seq<u8>>,
}

impl View for Packet {
    type V = PacketModel;

    closed spec fn view(&self) -> PacketModel {
        PacketModel { method: self.method, items: self.data@.map_values(|d: BinaryData| d@) }
    }
}

/// Each item as its big-endian length followed by its bytes, one after another.
pub open spec fn encode_items(items: Seq<Seq<u8>>) -> Seq<u8>
    decreases items.len(),
{
    if items.len() == 0 {
        seq![]
    } else {
        be_bytes(items[0].len() as int) + items[0] + encode_items(items.drop_first())
    }
}

/// The method, the item count and the items, each number as four big-endian
/// bytes; with `has_size`, led by the total length (these four bytes included).
pub open spec fn encode_packet(m: PacketModel, has_size: bool) -> Seq<u8> {
    let body = be_bytes(m.method as int) + be_bytes(m.items.len() as int) + encode_items(m.items);
    if has_size {
        be_bytes(body.len() + 4int) + body
    } else {
        body
    }
}

/// Reading `count` items from `b` starting at `offset`: each a four-byte
/// big-endian length and that many bytes; `None` where one runs past the end.
pub open spec fn parse_items(b: Seq<u8>, offset: int, count: nat) -> Option<Seq<Seq<u8>>>
    decreases count,
{
    if count == 0 {
        Some(seq![])
    } else if offset + 4 > b.len() {
        None
    } else {
        let len = be_value(b.subrange(offset, offset + 4));
        let start = offset + 4;
        if start + len > b.len() {
            None
        } else {
            match parse_items(b, start + len, (count - 1) as nat) {
                Some(rest) => Some(seq![b.subrange(start, start + len)] + rest),
                None => None,
            }
        }
    }
}

/// What `Packet::from_binary` makes of `b`: the method from the first four
/// bytes, the item count from the next four, then the items; bytes after the
/// last item are not read.
pub open spec fn parse_packet(b: Seq<u8>) -> Result<PacketModel, PacketError> {
    if b.len() < 8 {
        Err(PacketError::TooShort)
    } else {
        match parse_items(b, 8, be_value(b.subrange(4, 8)) as nat) {
            Some(items) => Ok(PacketModel {
                method: signed_of(be_value(b.subrange(0, 4))) as i32,
                items,
            }),
            None => Err(PacketError::Invalid),
        }
    }
}

proof fn lemma_encode_items_push(items: Seq<Seq<u8>>, x: Seq<u8>)
    ensures
        encode_items(items.push(x)) == encode_items(items) + be_bytes(x.len() as int) + x,
    decreases items.len(),
{
    if items.len() == 0 {
        assert(items.push(x).drop_first() =~= seq![]);
        assert(encode_items(items.push(x).drop_first()) == Seq::<u8>::empty());
        assert(encode_items(items.push(x)) =~= be_bytes(x.len() as int) + x + seq![]);
        assert(encode_items(items) =~= seq![]);
        assert(encode_items(items.push(x)) =~= encode_items(items) + be_bytes(x.len() as int) + x);
    } else {
        assert(items.push(x).drop_first() =~= items.drop_first().push(x));
        lemma_encode_items_push(items.drop_first(), x);
        assert(encode_items(items.push(x)) =~= encode_items(items) + be_bytes(x.len() as int) + x);
    }
}

spec fn with_prefix(done: Seq<Seq<u8>>, o: Option<Seq<Seq<u8>>>) -> Option<Seq<Seq<u8>>> {
    match o {
        Some(rest) => Some(done + rest),
        None => None,
    }
}

/// The items written so far never outgrow all the items written.
proof fn lemma_encode_items_prefix(items: Seq<Seq<u8>>, k: int)
    requires
        0 <= k <= items.len(),
    ensures
        encode_items(items.take(k)).len() <= encode_items(items).len(),
    decreases items.len() - k,
{
    if k < items.len() {
        lemma_encode_items_prefix(items, k + 1);
        lemma_encode_items_push(items.take(k), items[k]);
        assert(items.take(k).push(items[k]) =~= items.take(k + 1));
    } else {
        assert(items.take(k) =~= items);
    }
}

proof fn lemma_parse_items_step(b: Seq<u8>, offset: int, count: nat, done: Seq<Seq<u8>>)
    requires
        count > 0,
        offset + 4 <= b.len(),
        offset + 4 + be_value(b.subrange(offset, offset + 4)) <= b.len(),
    ensures
        ({
            let next = offset + 4 + be_value(b.subrange(offset, offset + 4));
            let item = b.subrange(offset + 4, next);
            with_prefix(done, parse_items(b, offset, count))
                == with_prefix(done.push(item), parse_items(b, next, (count - 1) as nat))
        }),
{
    let next = offset + 4 + be_value(b.subrange(offset, offset + 4));
    let item = b.subrange(offset + 4, next);
    match parse_items(b, next, (count - 1) as nat) {
        Some(rest) => {
            assert(done + (seq![item] + rest) =~= done.push(item) + rest);
        },
        None => {},
    }
}

/// Reading back written items gives the items, whatever follows them.
proof fn lemma_parse_encoded_items(b: Seq<u8>, offset: int, items: Seq<Seq<u8>>)
    requires
        0 <= offset,
        offset + encode_items(items).len() <= b.len(),
        b.subrange(offset, offset + encode_items(items).len()) == encode_items(items),
        forall|i: int| 0 <= i < items.len() ==> #[trigger] items[i].len() <= u32::MAX,
    ensures
        parse_items(b, offset, items.len()) == Some(items),
    decreases items.len(),
{
    if items.len() == 0 {
        assert(items =~= seq![]);
    } else {
        let x = items[0];
        let rest = items.drop_first();
        let e = encode_items(items);
        lemma_be_value_of_bytes(x.len() as int);
        assert(e =~= be_bytes(x.len() as int) + x + encode_items(rest));
        assert(b.subrange(offset, offset + 4) =~= e.subrange(0, 4));
        assert(e.subrange(0, 4) =~= be_bytes(x.len() as int));
        assert(be_value(b.subrange(offset, offset + 4)) == x.len());
        assert(b.subrange(offset + 4, offset + 4 + x.len()) =~= x) by {
            assert(e.subrange(4, 4 + x.len() as int) =~= x);
        };
        let off2 = offset + 4 + x.len();
        assert(b.subrange(off2, off2 + encode_items(rest).len()) =~= encode_items(rest)) by {
            assert(e.subrange(4 + x.len() as int, e.len() as int) =~= encode_items(rest));
        };
        assert forall|i: int| 0 <= i < rest.len() implies #[trigger] rest[i].len() <= u32::MAX by {
            assert(rest[i] == items[i + 1]);
        };
        lemma_parse_encoded_items(b, off2, rest);
        assert(seq![x] + rest =~= items);
    }
}

/// A packet written without its size prefix, or with it and the prefix
/// taken off, reads back as the same packet, as long as its item count and
/// each item's length fit in 32 bits.
pub proof fn lemma_from_binary_to_binary(m: PacketModel)
    requires
        m.items.len() <= u32::MAX,
        forall|i: int| 0 <= i < m.items.len() ==> #[trigger] m.items[i].len() <= u32::MAX,
    ensures
        parse_packet(encode_packet(m, false)) == Ok::<PacketModel, PacketError>(m),
        parse_packet(encode_packet(m, true).subrange(4, encode_packet(m, true).len() as int))
            == Ok::<PacketModel, PacketError>(m),
{
    lemma_size_prefix(m);
    let b = encode_packet(m, false);
    let e = encode_items(m.items);
    let h1 = be_bytes(m.method as int);
    let h2 = be_bytes(m.items.len() as int);
    assert(b == h1 + h2 + e);
    lemma_be_value_of_bytes(m.method as int);
    lemma_be_value_of_bytes(m.items.len() as int);
    assert(b.subrange(0, 4) =~= h1);
    assert(b.subrange(4, 8) =~= h2);
    assert(b.subrange(8, 8 + e.len() as int) =~= e);
    assert(be_value(b.subrange(4, 8)) == m.items.len());
    assert(signed_of(be_value(b.subrange(0, 4))) == m.method);
    lemma_parse_encoded_items(b, 8, m.items);
    assert(parse_items(b, 8, be_value(b.subrange(4, 8)) as nat) == Some(m.items));
}

/// With the size prefix, the first four bytes give the total length (modulo
/// 2^32) and the rest are the packet written without it.
pub proof fn lemma_size_prefix(m: PacketModel)
    ensures
        encode_packet(m, true).len() == encode_packet(m, false).len() + 4,
        be_value(encode_packet(m, true).subrange(0, 4)) == encode_packet(m, true).len() % 0x1_0000_0000,
        encode_packet(m, true).subrange(4, encode_packet(m, true).len() as int) == encode_packet(m, false),
{
    let body = encode_packet(m, false);
    let t = encode_packet(m, true);
    lemma_be_value_of_bytes(body.len() + 4int);
    assert(t.subrange(0, 4) =~= be_bytes(body.len() + 4int));
    assert(t.subrange(4, t.len() as int) =~= body);
}

/// The four big-endian bytes of a length, taken modulo 2^32.
fn usize_to_be(x: usize) -> (res: Vec<u8>)
    ensures
        res@ == be_bytes(x as int),
{
    let u = (x as u64 % 0x1_0000_0000u64) as u32;
    assert((u as int) % 0x1_0000_0000 == (x as int) % 0x1_0000_0000);
    u32_to_be(u)
}

fn append_bytes(res: &mut Vec<u8>, bytes: &Vec<u8>)
    ensures
        final(res)@ == old(res)@ + bytes@,
{
    let mut i: usize = 0;
    while i < bytes.len()
        invariant
            i <= bytes@.len(),
            res@ == old(res)@ + bytes@.subrange(0, i as int),
        decreases bytes@.len() - i,
    {
        res.push(bytes[i]);
        i += 1;
        assert(bytes@.subrange(0, i as int) =~= bytes@.subrange(0, i - 1) + seq![bytes@[i - 1]]);
    }
    assert(bytes@.subrange(0, i as int) =~= bytes@);
}

impl Clone for Packet {
    fn clone(&self) -> (res: Self)
        ensures
            res@ == self@,
    {
        let mut data: Vec<BinaryData> = Vec::new();
        let mut i: usize = 0;
        while i < self.data.len()
            invariant
                i <= self.data@.len(),
                data@.len() == i,
                forall|j: int| 0 <= j < i ==> #[trigger] data@[j]@ == self.data@[j]@,
            decreases self.data@.len() - i,
        {
            data.push(self.data[i].clone());
            i += 1;
        }
        let res = Packet { method: self.method, data };
        assert(res@.items =~= self@.items);
        res
    }
}

impl Packet {
    /// The packet's method number and items.
    pub closed spec fn model(&self) -> PacketModel {
        self@
    }

    /// An empty packet with method 0.
    pub fn new() -> (res: Self)
        ensures
            res@ == (PacketModel { method: 0, items: seq![] }),
    {
        let res = Self { method: 0, data: Vec::new() };
        assert(res@.items =~= seq![]);
        res
    }

    pub fn from_data(method: i32, data: Vec<BinaryData>) -> (res: Self)
        ensures
            res@ == (PacketModel { method, items: data@.map_values(|d: BinaryData| d@) }),
    {
        Self { method, data }
    }

    /// Reads a packet (without its size prefix) from bytes.
    pub fn from_binary(data: Vec<u8>) -> (res: Result<Self, PacketError>)
        ensures
            match parse_packet(data@) {
                Ok(m) => res matches Ok(p) && p@ == m,
                Err(e) => res == Err::<Self, PacketError>(e),
            },
    {
        if data.len() < 8 {
            return Err(PacketError::TooShort);
        }
        let method = slice_to_i32(vstd::slice::slice_subrange(data.as_slice(), 0, 4));
        let data_cnt = slice_to_u32(vstd::slice::slice_subrange(data.as_slice(), 4, 8));
        let ghost total = be_value(data@.subrange(4, 8)) as nat;
        let mut items: Vec<BinaryData> = Vec::new();
        let mut offset: usize = 8;
        let mut k: u32 = 0;
        assert(items@.map_values(|d: BinaryData| d@) =~= seq![]);
        while k < data_cnt
            invariant
                8 <= offset <= data@.len(),
                k <= data_cnt,
                data_cnt as int == total,
                total == be_value(data@.subrange(4, 8)) as nat,
                method as int == signed_of(be_value(data@.subrange(0, 4))),
                parse_items(data@, 8, total) == with_prefix(
                    items@.map_values(|d: BinaryData| d@),
                    parse_items(data@, offset as int, (total - k) as nat),
                ),
            decreases data_cnt - k,
        {
            if data.len() - offset < 4 {
                assert(parse_items(data@, offset as int, (total - k) as nat) is None);
                assert(parse_items(data@, 8, total) is None);
                assert(parse_packet(data@) == Err::<PacketModel, PacketError>(PacketError::Invalid));
                return Err(PacketError::Invalid);
            }
            let len = slice_to_u32(vstd::slice::slice_subrange(data.as_slice(), offset, offset + 4));
            if len as usize > data.len() - offset - 4 {
                assert(parse_items(data@, offset as int, (total - k) as nat) is None);
                assert(parse_items(data@, 8, total) is None);
                assert(parse_packet(data@) == Err::<PacketModel, PacketError>(PacketError::Invalid));
                return Err(PacketError::Invalid);
            }
            let ghost old_items = items@.map_values(|d: BinaryData| d@);
            let start = offset + 4;
            let end = start + len as usize;
            let now_data = vstd::slice::slice_to_vec(vstd::slice::slice_subrange(data.as_slice(), start, end));
            proof {
                lemma_parse_items_step(data@, offset as int, (total - k) as nat, old_items);
                assert((total - k - 1) as nat == (total - (k + 1)) as nat);
            }
            items.push(BinaryData::from_vec(now_data));
            assert(items@.map_values(|d: BinaryData| d@) =~= old_items.push(data@.subrange(start as int, end as int)));
            offset = end;
            k += 1;
        }
        assert(parse_items(data@, offset as int, 0) == Some(Seq::<Seq<u8>>::empty()));
        assert(items@.map_values(|d: BinaryData| d@) + Seq::<Seq<u8>>::empty() =~= items@.map_values(|d: BinaryData| d@));
        Ok(Self { method, data: items })
    }

    /// How many bytes `to_binary` writes; `None` where that does not fit in a `usize`.
    pub fn binary_len(&self, has_packet_size: bool) -> (res: Option<usize>)
        ensures
            res matches Some(n) ==> n == encode_packet(self@, has_packet_size).len(),
            res is None ==> encode_packet(self@, has_packet_size).len() > usize::MAX,
    {
        let ghost items = self@.items;
        let mut len: usize = if has_packet_size { 12 } else { 8 };
        let mut i: usize = 0;
        proof {
            lemma_be_value_of_bytes(self.method as int);
            lemma_be_value_of_bytes(items.len() as int);
        }
        assert(items.take(0) =~= seq![]);
        while i < self.data.len()
            invariant
                i <= self.data@.len(),
                items == self.data@.map_values(|d: BinaryData| d@),
                len == (if has_packet_size { 12int } else { 8int }) + encode_items(items.take(i as int)).len(),
            decreases self.data@.len() - i,
        {
            proof {
                lemma_encode_items_push(items.take(i as int), items[i as int]);
                assert(items.take(i as int).push(items[i as int]) =~= items.take(i + 1));
                lemma_be_value_of_bytes(items[i as int].len() as int);
                lemma_encode_items_prefix(items, i + 1);
            }
            let step = match self.data[i].vec.len().checked_add(4) {
                Some(x) => x,
                None => { return None; },
            };
            len = match len.checked_add(step) {
                Some(x) => x,
                None => { return None; },
            };
            i += 1;
        }
        assert(items.take(i as int) =~= items);
        proof {
            let body = encode_packet(self@, false);
            assert(body.len() == 8 + encode_items(items).len());
            if has_packet_size {
                lemma_be_value_of_bytes(body.len() + 4int);
            }
        }
        Some(len)
    }

    /// Writes the packet as bytes, led by its total length when `has_packet_size`.
    pub fn to_binary(self, has_packet_size: bool) -> (res: Vec<u8>)
        requires
            encode_packet(self@, has_packet_size).len() <= usize::MAX,
        ensures
            res@ == encode_packet(self@, has_packet_size),
    {
        let ghost items = self@.items;
        let mut body: Vec<u8> = i32_to_be(self.method);
        let cnt = usize_to_be(self.data.len());
        append_bytes(&mut body, &cnt);
        let ghost head = body@;
        let mut i: usize = 0;
        assert(items.take(0) =~= seq![]);
        while i < self.data.len()
            invariant
                i <= self.data@.len(),
                items == self.data@.map_values(|d: BinaryData| d@),
                body@ == head + encode_items(items.take(i as int)),
            decreases self.data@.len() - i,
        {
            let d = &self.data[i];
            let l = usize_to_be(d.vec.len());
            append_bytes(&mut body, &l);
            append_bytes(&mut body, &d.vec);
            proof {
                lemma_encode_items_push(items.take(i as int), items[i as int]);
                assert(items.take(i as int).push(items[i as int]) =~= items.take(i + 1));
            }
            i += 1;
        }
        assert(items.take(i as int) =~= items);
        assert(body@ =~= encode_packet(self@, false));
        if has_packet_size {
            let mut res = usize_to_be(body.len() + 4);
            append_bytes(&mut res, &body);
            res
        } else {
            body
        }
    }

    /// The item at `idx`.
    pub fn get<'a>(&'a self, idx: usize) -> (res: &'a BinaryData)
        requires
            idx < self@.items.len(),
        ensures
            res@ == self@.items[idx as int],
    {
        &self.data[idx]
    }

    /// Takes the item at `idx` out, leaving an empty item in its place.
    pub fn get_move(&mut self, idx: usize) -> (res: BinaryData)
        requires
            idx < old(self)@.items.len(),
        ensures
            res@ == old(self)@.items[idx as int],
            final(self)@ == (PacketModel {
                method: old(self)@.method,
                items: old(self)@.items.update(idx as int, seq![]),
            }),
    {
        let mut data = BinaryData::from_vec(Vec::new());
        std::mem::swap(&mut data, &mut self.data[idx]);
        assert(self@.items =~= old(self)@.items.update(idx as int, seq![]));
        data
    }

    pub fn get_method(&self) -> (res: i32)
        ensures
            res == self@.method,
    {
        self.method
    }

    /// The item at `idx`, to be changed in place.
    pub fn get_mut<'a>(&'a mut self, idx: usize) -> (res: &'a mut BinaryData)
        requires
            idx < old(self)@.items.len(),
        ensures
            res@ == old(self)@.items[idx as int],
            final(self)@.method == old(self)@.method,
            final(self)@.items.len() == old(self)@.items.len(),
            final(self)@.items[idx as int] == final(res)@,
            forall|j: int| 0 <= j < old(self)@.items.len() && j != idx
                ==> #[trigger] final(self)@.items[j] == old(self)@.items[j],
    {
        &mut self.data[idx]
    }

    /// The number of items.
    pub fn len(&self) -> (res: usize)
        ensures
            res == self@.items.len(),
    {
        self.data.len()
    }

    /// Appends an item.
    pub fn push(&mut self, data: BinaryData)
        ensures
            final(self)@ == (PacketModel { method: old(self)@.method, items: old(self)@.items.push(data@) }),
    {
        self.data.push(data);
        assert(self@.items =~= old(self)@.items.push(data@));
    }

    pub fn set_method(&mut self, method: i32)
        ensures
            final(self)@ == (PacketModel { method, items: old(self)@.items }),
    {
        self.method = method;
    }

    /// All items.
    pub fn get_vec(&self) -> (res: &Vec<BinaryData>)
        ensures
            res@.map_values(|d: BinaryData| d@) == self@.items,
    {
        &self.data
    }

    /// All items, to be changed in place.
    pub fn get_vec_mut(&mut self) -> (res: &mut Vec<BinaryData>)
        ensures
            res@.map_values(|d: BinaryData| d@) == old(self)@.items,
            final(self)@ == (PacketModel {
                method: old(self)@.method,
                items: final(res)@.map_values(|d: BinaryData| d@),
            }),
    {
        &mut self.data
    }

    /// The items, consuming the packet.
    pub fn get_vec_move(self) -> (res: Vec<BinaryData>)
        ensures
            res@.map_values(|d: BinaryData| d@) == self@.items,
    {
        self.data
    }
}

} // verus!
