//! Tagged AST nodes. Immediates (integers, characters, booleans, nil) live in the node
//! word itself; pairs and symbols live in an `AstHeap`, and their node word is the
//! object's address (a multiple of 16) with the pair or symbol tag in the low bits.
use vstd::prelude::*;
use crate::common::{Word, K_INTEGER_MAX, K_INTEGER_MIN};
use crate::text::{decimal_text, i64_to_decimal, push_char};
use crate::object::{
    object_encode_bool, object_encode_char,
    object_encode_integer, object_error, object_nil,
};

verus! {

/// An AST node: a tagged word.
pub type ASTNode = u64;

/// Most objects an `AstHeap` holds, so that every address fits in a node word.
pub const MAX_HEAP_OBJECTS: u64 = 0x0fff_ffff_ffff_fff0;

/// A heap pair.
pub struct Pair {
    pub car: ASTNode,
    pub cdr: ASTNode,
}

/// A heap symbol: its length in bytes, counting a terminating NUL, and its name.
pub struct Symbol {
    pub length: Word,
    pub name: String,
}

pub enum HeapObject {
    Pair(Pair),
    Symbol(Symbol),
}

/// The objects that pair and symbol nodes refer to; object `k` has address `16 * (k + 1)`.
pub struct AstHeap {
    objects: Vec<HeapObject>,
}

/// The low four bits of a node word.
pub open spec fn node_tag(node: u64) -> u64 {
    node & 0xf
}

/// The heap object a pair or symbol node refers to.
pub open spec fn object_index(node: u64) -> int {
    (node >> 4) as int - 1
}

/// The node word of heap object `k` with tag `tag`.
pub open spec fn heap_node(k: int, tag: u64) -> u64 {
    ((k + 1) * 16 + tag) as u64
}

impl AstHeap {
    pub closed spec fn objects(&self) -> Seq<HeapObject> {
        self.objects@
    }

    /// There is room for one more object.
    pub open spec fn has_room(&self) -> bool {
        self.objects().len() < MAX_HEAP_OBJECTS
    }

    /// `node` is a pair node whose object exists and is a pair.
    pub open spec fn is_pair_at(&self, node: u64) -> bool {
        &&& node_tag(node) == 1
        &&& 0 <= object_index(node) < self.objects().len()
        &&& self.objects()[object_index(node)] is Pair
    }

    /// `node` is a symbol node whose object exists and is a symbol.
    pub open spec fn is_symbol_at(&self, node: u64) -> bool {
        &&& node_tag(node) == 7
        &&& 0 <= object_index(node) < self.objects().len()
        &&& self.objects()[object_index(node)] is Symbol
    }

    /// Every heap node that `node` refers to is an object below `k` of the right kind.
    pub open spec fn node_below(&self, node: u64, k: int) -> bool {
        &&& node_tag(node) == 1 ==> self.is_pair_at(node) && object_index(node) < k
        &&& node_tag(node) == 7 ==> self.is_symbol_at(node) && object_index(node) < k
    }

    /// `node` is an immediate or refers to an object of the right kind.
    pub open spec fn valid_node(&self, node: u64) -> bool {
        self.node_below(node, self.objects().len() as int)
    }

    pub open spec fn car_of(&self, node: u64) -> u64 {
        self.objects()[object_index(node)]->Pair_0.car
    }

    pub open spec fn cdr_of(&self, node: u64) -> u64 {
        self.objects()[object_index(node)]->Pair_0.cdr
    }

    pub open spec fn name_of(&self, node: u64) -> Seq<char> {
        self.objects()[object_index(node)]->Symbol_0.name@
    }

    /// The pairs only refer to objects created before them, so the heap has no cycles.
    pub open spec fn wf(&self) -> bool {
        forall|k: int|
            0 <= k < self.objects().len() && (#[trigger] self.objects()[k]) is Pair ==> {
                &&& self.node_below(self.objects()[k]->Pair_0.car, k)
                &&& self.node_below(self.objects()[k]->Pair_0.cdr, k)
            }
    }

    /// The objects of `self` are the first objects of `other`.
    pub open spec fn extended_by(&self, other: &AstHeap) -> bool {
        &&& self.objects().len() <= other.objects().len()
        &&& forall|k: int| 0 <= k < self.objects().len() ==> other.objects()[k] == self.objects()[k]
    }

    pub fn new() -> (h: AstHeap)
        ensures
            h.objects().len() == 0,
            h.wf(),
    {
        AstHeap { objects: Vec::new() }
    }

    /// Number of objects.
    pub fn len(&self) -> (n: usize)
        ensures
            n == self.objects().len(),
    {
        self.objects.len()
    }

    /// Whether `node` is a pair node whose object exists and is a pair.
    pub fn has_pair(&self, node: ASTNode) -> (r: bool)
        ensures
            r == self.is_pair_at(node),
    {
        if node & 0xF != 1 {
            return false;
        }
        let q = node >> 4;
        if q == 0 || q - 1 >= self.objects.len() as u64 {
            return false;
        }
        match &self.objects[(q - 1) as usize] {
            HeapObject::Pair(_) => true,
            HeapObject::Symbol(_) => false,
        }
    }

    /// Whether `node` is a symbol node whose object exists and is a symbol.
    pub fn has_symbol(&self, node: ASTNode) -> (r: bool)
        ensures
            r == self.is_symbol_at(node),
    {
        if node & 0xF != 7 {
            return false;
        }
        let q = node >> 4;
        if q == 0 || q - 1 >= self.objects.len() as u64 {
            return false;
        }
        match &self.objects[(q - 1) as usize] {
            HeapObject::Pair(_) => false,
            HeapObject::Symbol(_) => true,
        }
    }
}

// Utility functions

pub fn ast_is_heap_object(node: ASTNode) -> (r: bool)
    ensures
        r == ((node & 0xf) & 3 > 0 && (node & 0xf) & 0x1f != 7),
{
    let tag = node & 0xF;
    // (tag & kIntegerTagMask) > 0 && (tag & kImmediateTagMask) != 0x7;
    (tag & 3) > 0 && (tag & 0x1F) != 0x7
}

// Integer

pub fn ast_new_integer(value: Word) -> (r: ASTNode)
    requires
        K_INTEGER_MIN < value < K_INTEGER_MAX,
    ensures
        r == (value * 4) as u64,
{
    object_encode_integer(value) as ASTNode
}

pub fn ast_is_integer(node: ASTNode) -> (r: bool)
    ensures
        r == (node & 3 == 0),
{
    (node & 3) == 0
}

pub fn ast_get_integer(node: ASTNode) -> (r: Word)
    ensures
        r == (node as i64) >> 2,
{
    (node as Word) >> 2u32
}

// Character

pub fn ast_is_char(node: ASTNode) -> (r: bool)
    ensures
        r == (node & 0x1f == 0x0f),
{
    (node & 0x1F) == 0x0F
}

pub fn ast_get_char(node: ASTNode) -> (r: char)
    ensures
        r as u64 == (node >> 8) & 0xff,
{
    let b = (node >> 8) & 0xFF;
    proof {
        lemma_immediate_bits(node, 0, 0);
    }
    (b as u8) as char
}

pub fn ast_new_char(value: char) -> (r: ASTNode)
    ensures
        r == ((value as int) * 256 + 15) as u64,
{
    object_encode_char(value as i32) as ASTNode
}

// Bool

pub fn ast_is_bool(node: ASTNode) -> (r: bool)
    ensures
        r == (node & 0x1f == 0x1f),
{
    (node & 0x1F) == 0x1F
}

pub fn ast_get_bool(node: ASTNode) -> (r: bool)
    ensures
        r == ((node >> 5) & 1 != 0),
{
    (node >> 5) & 1 != 0
}

pub fn ast_new_bool(value: bool) -> (r: ASTNode)
    ensures
        r == if value { 63u64 } else { 31u64 },
{
    object_encode_bool(value) as ASTNode
}

// Nil

pub fn ast_is_nil(node: ASTNode) -> (r: bool)
    ensures
        r == (node == 0x2f),
{
    node == ast_nil()
}

pub fn ast_nil() -> (r: ASTNode)
    ensures
        r == 0x2f,
{
    object_nil() as ASTNode
}

pub fn ast_is_error(node: ASTNode) -> (r: bool)
    ensures
        r == (node == 0x3f),
{
    node == ast_error()
}

pub fn ast_error() -> (r: ASTNode)
    ensures
        r == 0x3f,
{
    object_error() as ASTNode
}

/// Bit facts about immediate node words: the character field is a byte, and integers,
/// characters, booleans and nil never carry the pair or symbol tag.
pub proof fn lemma_immediate_bits(node: u64, i: i64, c: u64)
    by (bit_vector)
    ensures
        (node >> 8) & 0xff < 256,
        ((i * 4) as u64) & 0xf != 1,
        ((i * 4) as u64) & 0xf != 7,
        ((c * 256 + 15) as u64) & 0xf == 15,
        63u64 & 0xf == 15,
        31u64 & 0xf == 15,
        0x2fu64 & 0xf == 15,
        0x2fu64 & 0x1f == 0x0f,
{
}

/// The node word of object `k` carries its tag and refers back to `k`.
proof fn lemma_heap_node(k: u64, tag: u64)
    requires
        k < MAX_HEAP_OBJECTS,
        tag < 16,
    ensures
        node_tag(heap_node(k as int, tag)) == tag,
        object_index(heap_node(k as int, tag)) == k,
        heap_node(k as int, tag) == ((k + 1) as u64) * 16 + tag,
{
    assert(k < 0x0fff_ffff_ffff_fff0u64 && tag < 16 ==> {
        &&& (((k + 1) * 16 + tag) as u64) & 0xf == tag
        &&& (((k + 1) * 16 + tag) as u64) >> 4 == k + 1
        &&& ((k + 1) * 16 + tag) as u64 == ((k + 1) as u64) * 16 + tag
    }) by (bit_vector);
}

/// Exec index of the object a valid pair or symbol node refers to.
fn node_index(heap: &AstHeap, node: ASTNode) -> (k: usize)
    requires
        0 <= object_index(node) < heap.objects().len(),
    ensures
        k == object_index(node),
{
    let n = heap.objects.len();
    let q = (node >> 4) - 1;
    assert(q < n);
    q as usize
}

impl AstHeap {
    /// Add `obj` as a new object; returns its index.
    fn push_object(&mut self, obj: HeapObject) -> (k: usize)
        requires
            old(self).has_room(),
        ensures
            final(self).objects() == old(self).objects().push(obj),
            k == old(self).objects().len(),
    {
        let k = self.objects.len();
        self.objects.push(obj);
        k
    }
}

pub fn ast_new_pair(heap: &mut AstHeap, car: ASTNode, cdr: ASTNode) -> (node: ASTNode)
    requires
        old(heap).has_room(),
    ensures
        final(heap).objects() == old(heap).objects().push(HeapObject::Pair(Pair { car, cdr })),
        node == heap_node(old(heap).objects().len() as int, 1),
        final(heap).is_pair_at(node),
        final(heap).car_of(node) == car,
        final(heap).cdr_of(node) == cdr,
        old(heap).extended_by(&*final(heap)),
        old(heap).wf() && old(heap).valid_node(car) && old(heap).valid_node(cdr) ==> final(heap).wf(),
{
    let ghost old_heap = *heap;
    let k = heap.push_object(HeapObject::Pair(Pair { car, cdr }));
    proof {
        lemma_heap_node(k as u64, 1);
        lemma_extension_keeps_nodes(&old_heap, &*heap);
        if old_heap.wf() && old_heap.valid_node(car) && old_heap.valid_node(cdr) {
            assert forall|j: int|
                0 <= j < heap.objects().len() && (#[trigger] heap.objects()[j]) is Pair implies {
                    &&& heap.node_below(heap.objects()[j]->Pair_0.car, j)
                    &&& heap.node_below(heap.objects()[j]->Pair_0.cdr, j)
                } by {
                if j < k {
                    assert(old_heap.objects()[j] == heap.objects()[j]);
                }
            }
        }
    }
    ((k as u64) + 1) * 16 + 1
}

/// Nodes that were valid below `k` stay so when objects are appended.
pub proof fn lemma_extension_keeps_nodes(a: &AstHeap, b: &AstHeap)
    requires
        a.extended_by(b),
    ensures
        forall|n: u64, k: int| #[trigger] a.node_below(n, k) ==> b.node_below(n, k),
        forall|n: u64| #[trigger] a.valid_node(n) ==> b.valid_node(n),
{
    assert forall|n: u64, k: int| #[trigger] a.node_below(n, k) implies b.node_below(n, k) by {
        if node_tag(n) == 1 || node_tag(n) == 7 {
            assert(b.objects()[object_index(n)] == a.objects()[object_index(n)]);
        }
    }
    assert forall|n: u64| #[trigger] a.valid_node(n) implies b.valid_node(n) by {
        if node_tag(n) == 1 || node_tag(n) == 7 {
            assert(b.objects()[object_index(n)] == a.objects()[object_index(n)]);
        }
    }
}

pub fn ast_is_pair(node: ASTNode) -> (r: bool)
    ensures
        r == (node_tag(node) == 1),
{
    (node & 0xF) == 1
}

/// The pair a pair node refers to.
pub fn ast_as_pair(heap: &AstHeap, node: ASTNode) -> (p: &Pair)
    requires
        heap.is_pair_at(node),
    ensures
        p.car == heap.car_of(node),
        p.cdr == heap.cdr_of(node),
{
    let k = node_index(heap, node);
    match &heap.objects[k] {
        HeapObject::Pair(p) => p,
        HeapObject::Symbol(_) => unreached(),
    }
}

pub fn ast_pair_car(heap: &AstHeap, node: ASTNode) -> (r: ASTNode)
    requires
        heap.is_pair_at(node),
    ensures
        r == heap.car_of(node),
{
    ast_as_pair(heap, node).car
}

pub fn ast_pair_cdr(heap: &AstHeap, node: ASTNode) -> (r: ASTNode)
    requires
        heap.is_pair_at(node),
    ensures
        r == heap.cdr_of(node),
{
    ast_as_pair(heap, node).cdr
}

pub fn ast_pair_set_car(heap: &mut AstHeap, node: ASTNode, car: ASTNode)
    requires
        old(heap).is_pair_at(node),
    ensures
        final(heap).objects() == old(heap).objects().update(
            object_index(node),
            HeapObject::Pair(Pair { car, cdr: old(heap).cdr_of(node) }),
        ),
{
    let cdr = ast_pair_cdr(heap, node);
    let k = node_index(heap, node);
    heap.objects.set(k, HeapObject::Pair(Pair { car, cdr }));
}

pub fn ast_pair_set_cdr(heap: &mut AstHeap, node: ASTNode, cdr: ASTNode)
    requires
        old(heap).is_pair_at(node),
    ensures
        final(heap).objects() == old(heap).objects().update(
            object_index(node),
            HeapObject::Pair(Pair { car: old(heap).car_of(node), cdr }),
        ),
{
    let car = ast_pair_car(heap, node);
    let k = node_index(heap, node);
    heap.objects.set(k, HeapObject::Pair(Pair { car, cdr }));
}

// Symbol

/// The symbol a symbol node refers to.
pub fn ast_as_symbol(heap: &AstHeap, node: ASTNode) -> (s: &Symbol)
    requires
        heap.is_symbol_at(node),
    ensures
        s.name@ == heap.name_of(node),
        *s == heap.objects()[object_index(node)]->Symbol_0,
{
    let k = node_index(heap, node);
    match &heap.objects[k] {
        HeapObject::Symbol(s) => s,
        HeapObject::Pair(_) => unreached(),
    }
}

pub fn ast_new_symbol(heap: &mut AstHeap, name: &str) -> (node: ASTNode)
    requires
        old(heap).has_room(),
    ensures
        final(heap).objects().len() == old(heap).objects().len() + 1,
        old(heap).extended_by(&*final(heap)),
        node == heap_node(old(heap).objects().len() as int, 7),
        final(heap).is_symbol_at(node),
        final(heap).name_of(node) == name@,
        final(heap).objects()[object_index(node)]->Symbol_0.length == (name.len() as u64).wrapping_add(1) as i64,
        name.len() < 0x7fff_ffff_ffff_ffff ==> final(heap).objects()[object_index(node)]->Symbol_0.length == name.len() + 1,
        old(heap).wf() ==> final(heap).wf(),
{
    let ghost old_heap = *heap;
    let length = ((name.len() as u64).wrapping_add(1)) as Word;
    let k = heap.push_object(HeapObject::Symbol(Symbol { length, name: String::from_str(name) }));
    proof {
        lemma_heap_node(k as u64, 7);
        lemma_extension_keeps_nodes(&old_heap, &*heap);
        if old_heap.wf() {
            assert forall|j: int|
                0 <= j < heap.objects().len() && (#[trigger] heap.objects()[j]) is Pair implies {
                    &&& heap.node_below(heap.objects()[j]->Pair_0.car, j)
                    &&& heap.node_below(heap.objects()[j]->Pair_0.cdr, j)
                } by {
                assert(old_heap.objects()[j] == heap.objects()[j]);
            }
        }
    }
    ((k as u64) + 1) * 16 + 7
}

pub fn ast_is_symbol(node: ASTNode) -> (r: bool)
    ensures
        r == (node_tag(node) == 7),
{
    (node & 0xF) == 7
}

/// The name of a symbol node.
pub fn ast_symbol_as_cstr(heap: &AstHeap, node: ASTNode) -> (s: &str)
    requires
        heap.is_symbol_at(node),
    ensures
        s@ == heap.name_of(node),
{
    ast_as_symbol(heap, node).name.as_str()
}

/// Whether a symbol node names `s`.
pub fn ast_symbol_matches(heap: &AstHeap, node: ASTNode, s: &str) -> (r: bool)
    requires
        heap.is_symbol_at(node),
    ensures
        r == (heap.name_of(node) == s@),
{
    let other = String::from_str(s);
    ast_as_symbol(heap, node).name == other
}

// List helpers

pub fn list1(heap: &mut AstHeap, item0: ASTNode) -> (node: ASTNode)
    requires
        old(heap).has_room(),
    ensures
        final(heap).objects() == old(heap).objects().push(HeapObject::Pair(Pair { car: item0, cdr: 0x2f })),
        node == heap_node(old(heap).objects().len() as int, 1),
        old(heap).wf() && old(heap).valid_node(item0) ==> final(heap).wf(),
{
    let nil = ast_nil();
    proof {
        lemma_immediate_bits(0, 0, 0);
    }
    ast_new_pair(heap, item0, nil)
}

pub fn list2(heap: &mut AstHeap, item0: ASTNode, item1: ASTNode) -> (node: ASTNode)
    requires
        old(heap).objects().len() + 1 < MAX_HEAP_OBJECTS,
    ensures
        final(heap).objects() == old(heap).objects()
            .push(HeapObject::Pair(Pair { car: item1, cdr: 0x2f }))
            .push(HeapObject::Pair(Pair { car: item0, cdr: heap_node(old(heap).objects().len() as int, 1) })),
        node == heap_node(old(heap).objects().len() + 1 as int, 1),
        old(heap).wf() && old(heap).valid_node(item0) && old(heap).valid_node(item1) ==> final(heap).wf(),
{
    let ghost h0 = *heap;
    let rest = list1(heap, item1);
    proof {
        lemma_extension_keeps_nodes(&h0, &*heap);
        lemma_heap_node(h0.objects().len() as u64, 1);
    }
    ast_new_pair(heap, item0, rest)
}

pub fn list3(heap: &mut AstHeap, item0: ASTNode, item1: ASTNode, item2: ASTNode) -> (node: ASTNode)
    requires
        old(heap).objects().len() + 2 < MAX_HEAP_OBJECTS,
    ensures
        final(heap).objects() == old(heap).objects()
            .push(HeapObject::Pair(Pair { car: item2, cdr: 0x2f }))
            .push(HeapObject::Pair(Pair { car: item1, cdr: heap_node(old(heap).objects().len() as int, 1) }))
            .push(HeapObject::Pair(Pair { car: item0, cdr: heap_node(old(heap).objects().len() + 1 as int, 1) })),
        node == heap_node(old(heap).objects().len() + 2 as int, 1),
        old(heap).wf() && old(heap).valid_node(item0) && old(heap).valid_node(item1)
            && old(heap).valid_node(item2) ==> final(heap).wf(),
{
    let ghost h0 = *heap;
    let rest = list2(heap, item1, item2);
    proof {
        lemma_extension_keeps_nodes(&h0, &*heap);
        lemma_heap_node((h0.objects().len() + 1) as u64, 1);
    }
    ast_new_pair(heap, item0, rest)
}

/// A call `(name arg)`.
pub fn new_unary_call(heap: &mut AstHeap, name: &str, arg: ASTNode) -> (node: ASTNode)
    requires
        old(heap).objects().len() + 2 < MAX_HEAP_OBJECTS,
        old(heap).wf(),
        old(heap).valid_node(arg),
    ensures
        final(heap).wf(),
        final(heap).valid_node(node),
        old(heap).extended_by(&*final(heap)),
        final(heap).is_pair_at(node),
        final(heap).is_symbol_at(final(heap).car_of(node)),
        final(heap).name_of(final(heap).car_of(node)) == name@,
        final(heap).is_pair_at(final(heap).cdr_of(node)),
        final(heap).car_of(final(heap).cdr_of(node)) == arg,
        final(heap).cdr_of(final(heap).cdr_of(node)) == 0x2f,
{
    let ghost h0 = *heap;
    let sym = ast_new_symbol(heap, name);
    let ghost h1 = *heap;
    proof {
        lemma_extension_keeps_nodes(&h0, &h1);
    }
    let node = list2(heap, sym, arg);
    proof {
        lemma_extension_keeps_nodes(&h1, &*heap);
        lemma_heap_node(h1.objects().len() as u64, 1);
        lemma_heap_node((h1.objects().len() + 1) as u64, 1);
        assert(h0.extended_by(&*heap));
    }
    node
}

/// A call `(name arg0 arg1)`.
pub fn new_binary_call(heap: &mut AstHeap, name: &str, arg0: ASTNode, arg1: ASTNode) -> (node: ASTNode)
    requires
        old(heap).objects().len() + 3 < MAX_HEAP_OBJECTS,
        old(heap).wf(),
        old(heap).valid_node(arg0),
        old(heap).valid_node(arg1),
    ensures
        final(heap).wf(),
        final(heap).valid_node(node),
        old(heap).extended_by(&*final(heap)),
        final(heap).is_pair_at(node),
        final(heap).is_symbol_at(final(heap).car_of(node)),
        final(heap).name_of(final(heap).car_of(node)) == name@,
        final(heap).is_pair_at(final(heap).cdr_of(node)),
        final(heap).car_of(final(heap).cdr_of(node)) == arg0,
        final(heap).is_pair_at(final(heap).cdr_of(final(heap).cdr_of(node))),
        final(heap).car_of(final(heap).cdr_of(final(heap).cdr_of(node))) == arg1,
        final(heap).cdr_of(final(heap).cdr_of(final(heap).cdr_of(node))) == 0x2f,
{
    let ghost h0 = *heap;
    let sym = ast_new_symbol(heap, name);
    let ghost h1 = *heap;
    proof {
        lemma_extension_keeps_nodes(&h0, &h1);
    }
    let node = list3(heap, sym, arg0, arg1);
    proof {
        lemma_extension_keeps_nodes(&h1, &*heap);
        lemma_heap_node(h1.objects().len() as u64, 1);
        lemma_heap_node((h1.objects().len() + 1) as u64, 1);
        lemma_heap_node((h1.objects().len() + 2) as u64, 1);
        assert(h0.extended_by(&*heap));
    }
    node
}

/// The first argument of an argument list.
pub fn operand1(heap: &AstHeap, args: ASTNode) -> (r: ASTNode)
    requires
        heap.is_pair_at(args),
    ensures
        r == heap.car_of(args),
{
    ast_pair_car(heap, args)
}

/// The second argument of an argument list.
pub fn operand2(heap: &AstHeap, args: ASTNode) -> (r: ASTNode)
    requires
        heap.is_pair_at(args),
        heap.is_pair_at(heap.cdr_of(args)),
    ensures
        r == heap.car_of(heap.cdr_of(args)),
{
    ast_pair_car(heap, ast_pair_cdr(heap, args))
}

/// The car of the car of the rest of an argument list.
pub fn operand3(heap: &AstHeap, args: ASTNode) -> (r: ASTNode)
    requires
        heap.is_pair_at(args),
        heap.is_pair_at(heap.cdr_of(args)),
        heap.is_pair_at(heap.car_of(heap.cdr_of(args))),
    ensures
        r == heap.car_of(heap.car_of(heap.cdr_of(args))),
{
    ast_pair_car(heap, ast_pair_car(heap, ast_pair_cdr(heap, args)))
}

/// `parts` joined with single spaces.
pub open spec fn join_words(parts: Seq<Seq<char>>) -> Seq<char>
    decreases parts.len(),
{
    if parts.len() == 0 {
        seq![]
    } else if parts.len() == 1 {
        parts[0]
    } else {
        join_words(parts.drop_last()) + seq![' '] + parts.last()
    }
}

impl AstHeap {
    /// The step the printer takes along a list: to the rest of the list, `cdr(cur)`.
    pub open spec fn list_next(&self, cur: u64) -> u64 {
        self.cdr_of(cur)
    }

    /// The printer can print `node` taking at most `d` steps into lists: every pair it walks
    /// exists and every symbol exists.
    pub open spec fn formattable_within(&self, node: u64, d: nat) -> bool
        decreases d, 1nat,
    {
        if node == 0x2f {
            true
        } else if node_tag(node) == 1 {
            self.list_formattable_within(node, d)
        } else if node_tag(node) == 7 {
            self.is_symbol_at(node)
        } else {
            true
        }
    }

    pub open spec fn list_formattable_within(&self, cur: u64, d: nat) -> bool
        decreases d, 0nat,
    {
        if d == 0 {
            false
        } else {
            &&& self.is_pair_at(cur)
            &&& self.formattable_within(self.car_of(cur), (d - 1) as nat)
            &&& if node_tag(self.list_next(cur)) == 1 {
                self.list_formattable_within(self.list_next(cur), (d - 1) as nat)
            } else {
                self.list_next(cur) == 0x2f || self.formattable_within(self.list_next(cur), (d - 1) as nat)
            }
        }
    }

    /// What `format_ast` prints for `node`, taking at most `d` steps into lists.
    pub open spec fn text_within(&self, node: u64, d: nat) -> Seq<char>
        decreases d, 2nat,
    {
        if node == 0x2f {
            seq!['(', ')']
        } else if node_tag(node) == 1 {
            seq!['('] + self.list_text_within(node, d) + seq![')']
        } else if node_tag(node) == 7 {
            self.name_of(node)
        } else if node & 3 == 0 {
            decimal_text(((node as i64) >> 2) as int)
        } else if node & 0x1f == 0x0f {
            seq!['\'', (((node >> 8) & 0xff) as u8) as char, '\'']
        } else if node & 0x1f == 0x1f {
            if (node >> 5) & 1 != 0 {
                seq!['#', 't']
            } else {
                seq!['#', 'f']
            }
        } else {
            seq!['<', 'u', 'n', 'k', 'n', 'o', 'w', 'n', '>']
        }
    }

    /// The texts of the elements the printer visits along a list, starting at `cur`.
    pub open spec fn list_parts_within(&self, cur: u64, d: nat) -> Seq<Seq<char>>
        decreases d, 0nat,
    {
        if d == 0 {
            seq![]
        } else {
            seq![self.text_within(self.car_of(cur), (d - 1) as nat)] + if node_tag(self.list_next(cur)) == 1 {
                self.list_parts_within(self.list_next(cur), (d - 1) as nat)
            } else {
                seq![]
            }
        }
    }

    /// The first node of the walk from `cur` that is not a pair node.
    pub open spec fn list_end_within(&self, cur: u64, d: nat) -> u64
        decreases d,
    {
        if d > 0 && node_tag(self.list_next(cur)) == 1 {
            self.list_end_within(self.list_next(cur), (d - 1) as nat)
        } else {
            self.list_next(cur)
        }
    }

    /// The text between the parentheses of a list: the elements joined with single spaces,
    /// and ` . ` and the tail when the list does not end in nil.
    pub open spec fn list_text_within(&self, cur: u64, d: nat) -> Seq<char>
        decreases d, 1nat,
    {
        join_words(self.list_parts_within(cur, d)) + if d == 0 || self.list_end_within(cur, d) == 0x2f {
            seq![]
        } else {
            seq![' ', '.', ' '] + self.text_within(self.list_end_within(cur, d), (d - 1) as nat)
        }
    }

    /// The end of a printable list walk is no pair, and is nil or printable itself.
    proof fn lemma_list_end(&self, cur: u64, d: nat)
        requires
            self.list_formattable_within(cur, d),
        ensures
            node_tag(self.list_end_within(cur, d)) != 1,
            self.list_end_within(cur, d) == 0x2f || self.formattable_within(self.list_end_within(cur, d), (d - 1) as nat),
        decreases d,
    {
        let next = self.list_next(cur);
        if node_tag(next) == 1 {
            self.lemma_list_end(next, (d - 1) as nat);
            let end = self.list_end_within(next, (d - 1) as nat);
            if end != 0x2f {
                self.lemma_formattable_more(end, (d - 2) as nat, (d - 1) as nat);
            }
        }
    }

    /// In a heap whose pairs refer only to older objects, what prints within depth `d`
    /// prints alike within any depth from the node's rank on.
    proof fn lemma_formattable_depth(&self, node: u64, d: nat, e: nat)
        requires
            self.wf(),
            self.valid_node(node),
            self.formattable_within(node, d),
            e >= pair_rank(node),
        ensures
            self.formattable_within(node, e),
            self.text_within(node, e) == self.text_within(node, d),
        decreases d, 1nat,
    {
        if node != 0x2f && node_tag(node) == 1 {
            self.lemma_list_formattable_depth(node, d, e);
        }
    }

    proof fn lemma_list_formattable_depth(&self, cur: u64, d: nat, e: nat)
        requires
            self.wf(),
            self.valid_node(cur),
            self.list_formattable_within(cur, d),
            e >= pair_rank(cur),
        ensures
            self.list_formattable_within(cur, e),
            self.list_parts_within(cur, e) == self.list_parts_within(cur, d),
            self.list_end_within(cur, e) == self.list_end_within(cur, d),
            self.list_text_within(cur, e) == self.list_text_within(cur, d),
        decreases d, 0nat,
    {
        let k = object_index(cur);
        assert(self.objects()[k] is Pair);
        let next = self.list_next(cur);
        self.lemma_formattable_depth(self.car_of(cur), (d - 1) as nat, (e - 1) as nat);
        if node_tag(next) == 1 {
            self.lemma_list_formattable_depth(next, (d - 1) as nat, (e - 1) as nat);
        } else if next != 0x2f {
            self.lemma_formattable_depth(next, (d - 1) as nat, (e - 1) as nat);
        }
        self.lemma_list_end(cur, d);
        let end = self.list_end_within(cur, d);
        if end != 0x2f {
            self.lemma_formattable_depth(end, (d - 1) as nat, (e - 1) as nat);
        }
    }

    /// The printer can print `node`. Each step into a list takes a pair, so a walk that
    /// reaches no pair twice (the heap has no cycle on it) takes at most as many steps as
    /// the heap has objects.
    pub open spec fn formattable(&self, node: u64) -> bool {
        self.formattable_within(node, self.objects().len())
    }

    /// What `format_ast` prints for `node`.
    pub open spec fn format_text(&self, node: u64) -> Seq<char> {
        self.text_within(node, self.objects().len())
    }

    /// In a heap built by the constructors, whose pairs refer only to older objects,
    /// bounding the printer's walk by the heap's size turns nothing away: a node printable
    /// within some depth is `formattable`, and its text is the same.
    pub proof fn lemma_formattable_any_depth(&self, node: u64, d: nat)
        requires
            self.wf(),
            self.valid_node(node),
            self.formattable_within(node, d),
        ensures
            self.formattable(node),
            self.format_text(node) == self.text_within(node, d),
    {
        self.lemma_formattable_depth(node, d, self.objects().len());
    }

    /// A printable node stays printable with more steps allowed.
    proof fn lemma_formattable_more(&self, node: u64, a: nat, b: nat)
        requires
            a <= b,
            self.formattable_within(node, a),
        ensures
            self.formattable_within(node, b),
        decreases a, 1nat,
    {
        if node != 0x2f && node_tag(node) == 1 {
            self.lemma_list_formattable_more(node, a, b);
        }
    }

    proof fn lemma_list_formattable_more(&self, cur: u64, a: nat, b: nat)
        requires
            a <= b,
            self.list_formattable_within(cur, a),
        ensures
            self.list_formattable_within(cur, b),
        decreases a, 0nat,
    {
        self.lemma_formattable_more(self.car_of(cur), (a - 1) as nat, (b - 1) as nat);
        let next = self.list_next(cur);
        if node_tag(next) == 1 {
            self.lemma_list_formattable_more(next, (a - 1) as nat, (b - 1) as nat);
        } else if next != 0x2f {
            self.lemma_formattable_more(next, (a - 1) as nat, (b - 1) as nat);
        }
    }
}

/// One more than the index of a pair node; 0 for other nodes.
spec fn pair_rank(node: u64) -> nat {
    if node_tag(node) == 1 && object_index(node) >= 0 {
        (object_index(node) + 1) as nat
    } else {
        0
    }
}

/// The texts of `parts` joined with single spaces.
fn join_with_spaces(parts: &Vec<String>) -> (s: String)
    ensures
        s@ == join_words(parts@.map_values(|p: String| p@)),
{
    let ghost views = parts@.map_values(|p: String| p@);
    let mut out = String::new();
    let mut i: usize = 0;
    while i < parts.len()
        invariant
            0 <= i <= parts.len(),
            views == parts@.map_values(|p: String| p@),
            out@ == join_words(views.take(i as int)),
        decreases parts.len() - i,
    {
        proof {
            assert(views.take(i + 1).drop_last() =~= views.take(i as int));
            assert(views.take(i + 1).last() == parts@[i as int]@);
        }
        if i > 0 {
            push_char(&mut out, ' ');
        } else {
            assert(views.take(1) =~= seq![views[0]]);
            assert(out@ =~= seq![]);
        }
        out.append(parts[i].as_str());
        i = i + 1;
    }
    assert(views.take(parts.len() as int) =~= views);
    out
}

/// Convert ASTNode to a Lisp-readable string
pub fn format_ast(heap: &AstHeap, node: ASTNode) -> (s: String)
    requires
        heap.formattable(node),
    ensures
        s@ == heap.format_text(node),
{
    format_ast_within(heap, node, Ghost(heap.objects().len()))
}

impl AstHeap {
    /// Whether `format_ast` can print `node`; a caller tests this first.
    pub fn check_formattable(&self, node: ASTNode) -> (r: bool)
        ensures
            r == self.formattable(node),
    {
        self.check_formattable_within(node, self.len() as u64)
    }

    fn check_formattable_within(&self, node: ASTNode, d: u64) -> (r: bool)
        ensures
            r == self.formattable_within(node, d as nat),
        decreases d, 1nat,
    {
        if node == 0x2F {
            true
        } else if node & 0xF == 1 {
            self.check_list_formattable_within(node, d)
        } else if node & 0xF == 7 {
            self.has_symbol(node)
        } else {
            true
        }
    }

    fn check_list_formattable_within(&self, cur: ASTNode, d: u64) -> (r: bool)
        ensures
            r == self.list_formattable_within(cur, d as nat),
        decreases d, 0nat,
    {
        if d == 0 || !self.has_pair(cur) {
            return false;
        }
        let car = ast_pair_car(self, cur);
        if !self.check_formattable_within(car, d - 1) {
            return false;
        }
        let next = ast_pair_cdr(self, cur);
        if next & 0xF == 1 {
            self.check_list_formattable_within(next, d - 1)
        } else {
            next == 0x2F || self.check_formattable_within(next, d - 1)
        }
    }
}

fn format_ast_within(heap: &AstHeap, node: ASTNode, Ghost(d): Ghost<nat>) -> (s: String)
    requires
        heap.formattable_within(node, d),
    ensures
        s@ == heap.text_within(node, d),
    decreases d, 2nat,
{
    if ast_is_nil(node) {
        proof {
            reveal_strlit("()");
        }
        return String::from_str("()");
    }
    if ast_is_pair(node) {
        let inner = format_list(heap, node, Ghost(d));
        let mut s = String::new();
        push_char(&mut s, '(');
        s.append(inner.as_str());
        push_char(&mut s, ')');
        assert(s@ =~= seq!['('] + inner@ + seq![')']);
        return s;
    }
    if ast_is_symbol(node) {
        return String::from_str(ast_symbol_as_cstr(heap, node));
    }
    if ast_is_integer(node) {
        return i64_to_decimal(ast_get_integer(node));
    }
    if ast_is_char(node) {
        let c = ast_get_char(node);
        let mut s = String::new();
        push_char(&mut s, '\'');
        push_char(&mut s, c);
        push_char(&mut s, '\'');
        assert(c == (((node >> 8) & 0xff) as u8) as char) by {
            lemma_immediate_bits(node, 0, 0);
        }
        assert(s@ =~= seq!['\'', c, '\'']);
        return s;
    }
    if ast_is_bool(node) {
        proof {
            reveal_strlit("#t");
            reveal_strlit("#f");
        }
        return if ast_get_bool(node) {
            String::from_str("#t")
        } else {
            String::from_str("#f")
        };
    }
    proof {
        reveal_strlit("<unknown>");
    }
    String::from_str("<unknown>")
}

/// The text between the parentheses of the list at `node`.
fn format_list(heap: &AstHeap, node: ASTNode, Ghost(d): Ghost<nat>) -> (s: String)
    requires
        heap.list_formattable_within(node, d),
    ensures
        s@ == heap.list_text_within(node, d),
    decreases d, 1nat,
{
    let mut parts: Vec<String> = Vec::new();
    let mut cur = node;
    let ghost mut dc: nat = d;
    while ast_is_pair(cur)
        invariant
            dc <= d,
            cur != node ==> dc < d,
            node_tag(cur) == 1 ==> heap.list_formattable_within(cur, dc),
            node_tag(cur) != 1 ==> cur == 0x2f || heap.formattable_within(cur, dc),
            heap.list_formattable_within(node, d),
            parts@.map_values(|p: String| p@) + (if node_tag(cur) == 1 { heap.list_parts_within(cur, dc) } else { seq![] })
                == heap.list_parts_within(node, d),
            (if node_tag(cur) == 1 { heap.list_end_within(cur, dc) } else { cur }) == heap.list_end_within(node, d),
            node_tag(node) == 1,
        decreases dc,
    {
        let car = operand1(heap, cur);
        let text = format_ast_within(heap, car, Ghost((dc - 1) as nat));
        let ghost old_parts = parts@.map_values(|p: String| p@);
        parts.push(text);
        let next = ast_pair_cdr(heap, cur);
        proof {
            assert(parts@.map_values(|p: String| p@) =~= old_parts.push(heap.text_within(car, (dc - 1) as nat)));
            assert(heap.list_next(cur) == next);
            if node_tag(next) == 1 {
                assert(old_parts + heap.list_parts_within(cur, dc) =~= parts@.map_values(|p: String| p@)
                    + heap.list_parts_within(next, (dc - 1) as nat));
            } else {
                assert(old_parts + heap.list_parts_within(cur, dc) =~= parts@.map_values(|p: String| p@));
            }
            dc = (dc - 1) as nat;
        }
        cur = next;
    }
    proof {
        assert(parts@.map_values(|p: String| p@) =~= heap.list_parts_within(node, d));
    }
    let joined = join_with_spaces(&parts);
    if ast_is_nil(cur) {
        joined
    } else {
        proof {
            heap.lemma_formattable_more(cur, dc, (d - 1) as nat);
        }
        let tail = format_ast_within(heap, cur, Ghost((d - 1) as nat));
        let mut s = joined;
        push_char(&mut s, ' ');
        push_char(&mut s, '.');
        push_char(&mut s, ' ');
        s.append(tail.as_str());
        assert(s@ =~= heap.list_text_within(node, d));
        s
    }
}

} // verus!
