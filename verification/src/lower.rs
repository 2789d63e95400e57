//! Building heap AST nodes from parsed values, so that the compiler can take what the reader
//! returns.
use vstd::prelude::*;
use crate::ast::{
    ast_new_bool, ast_new_char, ast_new_integer, ast_new_pair, ast_new_symbol, ast_nil,
    lemma_extension_keeps_nodes, lemma_immediate_bits, object_index,
    ASTNode, AstHeap, MAX_HEAP_OBJECTS,
};
use crate::common::{K_INTEGER_MAX, K_INTEGER_MIN};
use crate::parser::{model_seq, LispVal, SExpr};

verus! {

/// Every integer in `e` fits in a tagged integer.
pub open spec fn integers_fit(e: SExpr) -> bool
    decreases e,
{
    match e {
        SExpr::Integer(i) => K_INTEGER_MIN < i < K_INTEGER_MAX,
        SExpr::List(items) => integers_fit_all(items),
        _ => true,
    }
}

pub open spec fn integers_fit_all(items: Seq<SExpr>) -> bool
    decreases items,
{
    if items.len() == 0 {
        true
    } else {
        integers_fit(items[0]) && integers_fit_all(items.subrange(1, items.len() as int))
    }
}

/// Number of heap objects that the node of `e` needs.
pub open spec fn object_count(e: SExpr) -> nat
    decreases e,
{
    match e {
        SExpr::Symbol(_) => 1,
        SExpr::List(items) => object_count_all(items),
        _ => 0,
    }
}

pub open spec fn object_count_all(items: Seq<SExpr>) -> nat
    decreases items,
{
    if items.len() == 0 {
        0
    } else {
        1 + object_count(items[0]) + object_count_all(items.subrange(1, items.len() as int))
    }
}

impl AstHeap {
    /// `node` stands for `e`: immediates are their tagged words, symbols name the same
    /// characters, and lists are chains of pairs ending in nil.
    pub open spec fn represents(&self, node: u64, e: SExpr) -> bool
        decreases e,
    {
        match e {
            SExpr::Integer(i) => node == (i * 4) as u64,
            SExpr::Character(c) => node == ((c as int) * 256 + 15) as u64,
            SExpr::Bool(b) => node == if b { 63u64 } else { 31u64 },
            SExpr::Symbol(name) => self.is_symbol_at(node) && self.name_of(node) == name,
            SExpr::List(items) => self.represents_list(node, items),
        }
    }

    pub open spec fn represents_list(&self, node: u64, items: Seq<SExpr>) -> bool
        decreases items,
    {
        if items.len() == 0 {
            node == 0x2f
        } else {
            &&& self.is_pair_at(node)
            &&& self.represents(self.car_of(node), items[0])
            &&& self.represents_list(self.cdr_of(node), items.subrange(1, items.len() as int))
        }
    }
}


/// `model_seq` keeps the length and models each element in place.
pub proof fn lemma_model_seq(items: Seq<LispVal>)
    ensures
        model_seq(items).len() == items.len(),
        forall|k: int| 0 <= k < items.len() ==> #[trigger] model_seq(items)[k] == items[k].model(),
    decreases items.len(),
{
    if items.len() > 0 {
        let tail = items.subrange(1, items.len() as int);
        lemma_model_seq(tail);
        assert forall|k: int| 0 <= k < items.len() implies #[trigger] model_seq(items)[k]
            == items[k].model() by {
            if k > 0 {
                assert(tail[k - 1] == items[k]);
            }
        }
    }
}

/// Every element fits exactly when all of them do.
proof fn lemma_fit_all(items: Seq<SExpr>)
    ensures
        integers_fit_all(items) <==> forall|k: int| 0 <= k < items.len() ==> #[trigger] integers_fit(items[k]),
    decreases items.len(),
{
    if items.len() > 0 {
        let tail = items.subrange(1, items.len() as int);
        lemma_fit_all(tail);
        assert(integers_fit_all(items) == (integers_fit(items[0]) && integers_fit_all(tail)));
        if forall|k: int| 0 <= k < items.len() ==> #[trigger] integers_fit(items[k]) {
            assert(integers_fit(items[0]));
            assert forall|k: int| 0 <= k < tail.len() implies #[trigger] integers_fit(tail[k]) by {
                assert(tail[k] == items[k + 1]);
                assert(integers_fit(items[k + 1]));
            }
        }
        if integers_fit_all(items) {
            assert forall|k: int| 0 <= k < items.len() implies #[trigger] integers_fit(items[k]) by {
                if k > 0 {
                    assert(tail[k - 1] == items[k]);
                    assert(integers_fit(tail[k - 1]));
                }
            }
        }
    }
}

/// Unfolding the object count of a suffix by one element.
proof fn lemma_count_step(s: Seq<SExpr>, i: int)
    requires
        0 <= i < s.len(),
    ensures
        object_count_all(s.subrange(i, s.len() as int)) == 1 + object_count(s[i]) + object_count_all(
            s.subrange(i + 1, s.len() as int),
        ),
{
    let t = s.subrange(i, s.len() as int);
    assert(t.subrange(1, t.len() as int) =~= s.subrange(i + 1, s.len() as int));
}

/// A suffix needs no more objects than the whole sequence.
proof fn lemma_count_suffix(s: Seq<SExpr>, i: int)
    requires
        0 <= i <= s.len(),
    ensures
        object_count_all(s.subrange(i, s.len() as int)) <= object_count_all(s),
    decreases i,
{
    if i > 0 {
        lemma_count_suffix(s, i - 1);
        lemma_count_step(s, i - 1);
    } else {
        assert(s.subrange(0, s.len() as int) =~= s);
    }
}

/// Appending to a heap twice is appending to it once.
proof fn lemma_extended_trans(a: &AstHeap, b: &AstHeap, c: &AstHeap)
    requires
        a.extended_by(b),
        b.extended_by(c),
    ensures
        a.extended_by(c),
{
    assert forall|k: int| 0 <= k < a.objects().len() implies c.objects()[k] == a.objects()[k] by {
        assert(b.objects()[k] == a.objects()[k]);
    }
}

/// What a node stands for stays so when objects are appended to its heap.
pub proof fn lemma_represents_extended(a: &AstHeap, b: &AstHeap, node: u64, e: SExpr)
    requires
        a.extended_by(b),
        a.represents(node, e),
    ensures
        b.represents(node, e),
    decreases e,
{
    match e {
        SExpr::Symbol(_) => {
            assert(b.objects()[object_index(node)] == a.objects()[object_index(node)]);
        },
        SExpr::List(items) => {
            lemma_represents_list_extended(a, b, node, items);
        },
        _ => {},
    }
}

pub proof fn lemma_represents_list_extended(a: &AstHeap, b: &AstHeap, node: u64, items: Seq<SExpr>)
    requires
        a.extended_by(b),
        a.represents_list(node, items),
    ensures
        b.represents_list(node, items),
    decreases items,
{
    if items.len() > 0 {
        assert(b.objects()[object_index(node)] == a.objects()[object_index(node)]);
        lemma_represents_extended(a, b, a.car_of(node), items[0]);
        lemma_represents_list_extended(a, b, a.cdr_of(node), items.subrange(1, items.len() as int));
    }
}

/// A node that stands for a value is a valid node of its heap.
pub proof fn lemma_represents_valid(h: &AstHeap, node: u64, e: SExpr)
    requires
        h.represents(node, e),
    ensures
        h.valid_node(node),
{
    match e {
        SExpr::Integer(i) => {
            lemma_immediate_bits(0, i, 0);
        },
        SExpr::Character(c) => {
            let x = c as u64;
            assert((c as int) * 256 + 15 == x * 256 + 15);
            lemma_immediate_bits(0, 0, x);
        },
        SExpr::Symbol(_) => {},
        _ => {
            lemma_immediate_bits(0, 0, 0);
        },
    }
}

/// Whether the heap has room for `n` more objects.
pub open spec fn room_for(heap: &AstHeap, n: nat) -> bool {
    heap.objects().len() + n <= MAX_HEAP_OBJECTS
}

/// Build the heap node of a parsed value. The result is `None` when an integer does not fit
/// in a tagged word, or when the heap runs out of room; when the heap has room for the
/// objects the value needs, only the first can happen.
pub fn ast_from_lisp(heap: &mut AstHeap, val: &LispVal) -> (r: Option<ASTNode>)
    ensures
        old(heap).wf() ==> final(heap).wf(),
        old(heap).extended_by(&*final(heap)),
        final(heap).objects().len() <= old(heap).objects().len() + object_count(val.model()),
        r matches Some(n) ==> integers_fit(val.model()) && final(heap).represents(n, val.model()),
        !integers_fit(val.model()) ==> r is None,
        room_for(&*old(heap), object_count(val.model())) ==> (r is Some <==> integers_fit(val.model())),
    decreases val,
{
    match val {
        LispVal::Integer(i) => {
            if K_INTEGER_MIN < *i && *i < K_INTEGER_MAX {
                Some(ast_new_integer(*i))
            } else {
                None
            }
        },
        LispVal::Character(c) => Some(ast_new_char(*c)),
        LispVal::Bool(b) => Some(ast_new_bool(*b)),
        LispVal::Symbol(s) => {
            if heap.len() as u64 >= MAX_HEAP_OBJECTS {
                return None;
            }
            Some(ast_new_symbol(heap, s.as_str()))
        },
        LispVal::List(items) => {
            let ghost h0 = *heap;
            let ghost ms = model_seq(items@);
            let ghost fits = h0.objects().len() + object_count_all(ms) <= MAX_HEAP_OBJECTS;
            proof {
                lemma_model_seq(items@);
            }
            let mut node = ast_nil();
            let mut i = items.len();
            assert(ms.subrange(i as int, ms.len() as int) =~= Seq::<SExpr>::empty());
            while i > 0
                invariant
                    i <= items.len(),
                    h0 == *old(heap),
                    *val == LispVal::List(*items),
                    ms == model_seq(items@),
                    ms.len() == items.len(),
                    forall|k: int| 0 <= k < items.len() ==> #[trigger] ms[k] == items@[k].model(),
                    fits == (h0.objects().len() + object_count_all(ms) <= MAX_HEAP_OBJECTS),
                    h0.wf() ==> heap.wf(),
                    h0.extended_by(&*heap),
                    heap.objects().len() <= h0.objects().len() + object_count_all(
                        ms.subrange(i as int, ms.len() as int),
                    ),
                    heap.represents_list(node, ms.subrange(i as int, ms.len() as int)),
                    forall|k: int| i <= k < ms.len() ==> #[trigger] integers_fit(ms[k]),
                decreases i,
            {
                i -= 1;
                let ghost h1 = *heap;
                proof {
                    lemma_count_step(ms, i as int);
                    lemma_count_suffix(ms, i as int);
                }
                let item = ast_from_lisp(heap, &items[i]);
                match item {
                    None => {
                        proof {
                            lemma_fit_all(ms);
                            lemma_extended_trans(&h0, &h1, &*heap);
                        }
                        return None;
                    },
                    Some(it) => {
                        let ghost h2 = *heap;
                        if heap.len() as u64 >= MAX_HEAP_OBJECTS {
                            proof {
                                lemma_extended_trans(&h0, &h1, &*heap);
                            }
                            return None;
                        }
                        proof {
                            lemma_represents_list_extended(
                                &h1,
                                &h2,
                                node,
                                ms.subrange(i + 1, ms.len() as int),
                            );
                            lemma_represents_valid(&h2, it, ms[i as int]);
                            lemma_represents_valid(
                                &h2,
                                node,
                                SExpr::List(ms.subrange(i + 1, ms.len() as int)),
                            );
                        }
                        node = ast_new_pair(heap, it, node);
                        proof {
                            lemma_extended_trans(&h0, &h1, &h2);
                            lemma_extended_trans(&h0, &h2, &*heap);
                            lemma_represents_extended(&h2, &*heap, it, ms[i as int]);
                            lemma_represents_list_extended(
                                &h2,
                                &*heap,
                                heap.cdr_of(node),
                                ms.subrange(i + 1, ms.len() as int),
                            );
                            let t = ms.subrange(i as int, ms.len() as int);
                            assert(t[0] == ms[i as int]);
                            assert(t.subrange(1, t.len() as int) =~= ms.subrange(i + 1, ms.len() as int));
                        }
                    },
                }
            }
            proof {
                lemma_fit_all(ms);
                assert(ms.subrange(0, ms.len() as int) =~= ms);
            }
            Some(node)
        },
    }
}

} // verus!
