use vstd::prelude::*;

verus! {

/// Mathematical value of [`LinkOp`].
pub enum LinkOpV {
    Ensure { link: Seq<char>, target: Seq<char> },
    Remove { link: Seq<char> },
}

/// One step of symlink maintenance, for the surrounding process to carry
/// out: `Ensure` creates `link` pointing at `target` unless `link` already
/// exists (then it is left untouched); `Remove` unlinks unconditionally.
pub enum LinkOp {
    Ensure { link: String, target: String },
    Remove { link: String },
}

impl View for LinkOp {
    type V = LinkOpV;

    open spec fn view(&self) -> LinkOpV {
        match self {
            LinkOp::Ensure { link, target } => LinkOpV::Ensure { link: link@, target: target@ },
            LinkOp::Remove { link } => LinkOpV::Remove { link: link@ },
        }
    }
}

impl Clone for LinkOp {
    fn clone(&self) -> (r: Self)
        ensures
            r@ == self@,
    {
        match self {
            LinkOp::Ensure { link, target } => LinkOp::Ensure {
                link: link.clone(),
                target: target.clone(),
            },
            LinkOp::Remove { link } => LinkOp::Remove { link: link.clone() },
        }
    }
}

/// The abstract state of the managed links: which link path points where.
pub type LinkMap = Map<Seq<char>, Seq<char>>;

/// The effect of one operation on the link state.
pub open spec fn apply_op(m: LinkMap, op: LinkOpV) -> LinkMap {
    match op {
        LinkOpV::Ensure { link, target } => if m.dom().contains(link) {
            m
        } else {
            m.insert(link, target)
        },
        LinkOpV::Remove { link } => m.remove(link),
    }
}

/// The effect of a plan, applied in order.
pub open spec fn apply_ops(m: LinkMap, ops: Seq<LinkOpV>) -> LinkMap
    decreases ops.len(),
{
    if ops.len() == 0 {
        m
    } else {
        apply_ops(apply_op(m, ops[0]), ops.drop_first())
    }
}

/// A plan that only creates links.
pub open spec fn all_creates(ops: Seq<LinkOpV>) -> bool {
    forall|i: int| 0 <= i < ops.len() ==> (#[trigger] ops[i]) is Ensure
}

/// The link path an operation names.
pub open spec fn op_link(op: LinkOpV) -> Seq<char> {
    match op {
        LinkOpV::Ensure { link, target: _ } => link,
        LinkOpV::Remove { link } => link,
    }
}

/// After a create-only plan runs, every link it names exists.
pub proof fn lemma_creates_cover(m: LinkMap, ops: Seq<LinkOpV>, i: int)
    requires
        all_creates(ops),
        0 <= i < ops.len(),
    ensures
        apply_ops(m, ops).dom().contains(op_link(ops[i])),
    decreases ops.len(),
{
    let m1 = apply_op(m, ops[0]);
    assert forall|k: int| 0 <= k < ops.drop_first().len() implies (#[trigger] ops.drop_first()[
        k
    ]) is Ensure by {
        assert(ops.drop_first()[k] == ops[k + 1]);
    }
    if i == 0 {
        assert(m1.dom().contains(op_link(ops[0])));
        if ops.len() == 1 {
            assert(apply_ops(m1, ops.drop_first()) == m1);
        } else {
            lemma_dom_grows(m1, ops.drop_first(), op_link(ops[0]));
        }
    } else {
        lemma_creates_cover(m1, ops.drop_first(), i - 1);
        assert(ops.drop_first()[i - 1] == ops[i]);
    }
}

/// Applying a create-only plan never removes a link.
pub proof fn lemma_dom_grows(m: LinkMap, ops: Seq<LinkOpV>, l: Seq<char>)
    requires
        all_creates(ops),
        m.dom().contains(l),
    ensures
        apply_ops(m, ops).dom().contains(l),
        apply_ops(m, ops)[l] == m[l],
    decreases ops.len(),
{
    if ops.len() > 0 {
        lemma_dom_grows(apply_op(m, ops[0]), ops.drop_first(), l);
    }
}

/// A create-only plan whose links all exist already does nothing.
pub proof fn lemma_creates_noop(m: LinkMap, ops: Seq<LinkOpV>)
    requires
        all_creates(ops),
        forall|i: int| 0 <= i < ops.len() ==> m.dom().contains(op_link(#[trigger] ops[i])),
    ensures
        apply_ops(m, ops) == m,
    decreases ops.len(),
{
    if ops.len() > 0 {
        assert(apply_op(m, ops[0]) == m);
        assert forall|i: int| 0 <= i < ops.drop_first().len() implies m.dom().contains(
            op_link(#[trigger] ops.drop_first()[i]),
        ) by {
            assert(ops.drop_first()[i] == ops[i + 1]);
        }
        lemma_creates_noop(m, ops.drop_first());
    }
}

/// Creating the same links twice is the same as creating them once: the
/// second run of a create-only plan is a no-op.
pub proof fn lemma_creates_idempotent(m: LinkMap, ops: Seq<LinkOpV>)
    requires
        all_creates(ops),
    ensures
        apply_ops(apply_ops(m, ops), ops) == apply_ops(m, ops),
{
    let m1 = apply_ops(m, ops);
    assert forall|i: int| 0 <= i < ops.len() implies m1.dom().contains(
        op_link(#[trigger] ops[i]),
    ) by {
        lemma_creates_cover(m, ops, i);
    }
    lemma_creates_noop(m1, ops);
}

/// The first creation of a link decides its target: if nothing binds
/// `link` beforehand and the plan's sole operation naming it is
/// `ops[i]`, creating it with `target`, then afterwards `link` points at
/// `target`.
pub proof fn lemma_create_binds(m: LinkMap, ops: Seq<LinkOpV>, i: int)
    requires
        all_creates(ops),
        0 <= i < ops.len(),
        !m.dom().contains(op_link(ops[i])),
        forall|j: int| 0 <= j < i ==> op_link(#[trigger] ops[j]) != op_link(ops[i]),
    ensures
        apply_ops(m, ops).dom().contains(op_link(ops[i])),
        apply_ops(m, ops)[op_link(ops[i])] == ops[i]->Ensure_target,
    decreases ops.len(),
{
    let m1 = apply_op(m, ops[0]);
    if i == 0 {
        assert(m1.dom().contains(op_link(ops[0])));
        assert(m1[op_link(ops[0])] == ops[0]->Ensure_target);
        if ops.len() > 1 {
            lemma_dom_grows(m1, ops.drop_first(), op_link(ops[0]));
        }
    } else {
        assert(op_link(ops[0]) != op_link(ops[i]));
        assert(!m1.dom().contains(op_link(ops[i])));
        assert forall|j: int| 0 <= j < i - 1 implies op_link(
            #[trigger] ops.drop_first()[j],
        ) != op_link(ops.drop_first()[i - 1]) by {
            assert(ops.drop_first()[j] == ops[j + 1]);
            assert(ops.drop_first()[i - 1] == ops[i]);
        }
        lemma_create_binds(m1, ops.drop_first(), i - 1);
        assert(ops.drop_first()[i - 1] == ops[i]);
    }
}

/// Re-pointing the shared activation link: removing it and creating it
/// anew leaves it bound to the new target, whatever it was before, and
/// touches no other link.
pub proof fn lemma_repoint(m: LinkMap, link: Seq<char>, target: Seq<char>)
    ensures
        ({
            let ops = seq![
                LinkOpV::Remove { link },
                LinkOpV::Ensure { link, target },
            ];
            let m2 = apply_ops(m, ops);
            &&& m2.dom().contains(link)
            &&& m2[link] == target
            &&& forall|k: Seq<char>|
                k != link ==> (#[trigger] m2.dom().contains(k) == m.dom().contains(k)
                    && (m.dom().contains(k) ==> m2[k] == m[k]))
        }),
{
    let ops = seq![LinkOpV::Remove { link }, LinkOpV::Ensure { link, target }];
    let m1 = apply_op(m, ops[0]);
    assert(ops.drop_first() =~= seq![LinkOpV::Ensure { link, target }]);
    let m2 = apply_ops(m1, ops.drop_first());
    assert(apply_ops(m, ops) == m2);
    assert(m2 == apply_ops(apply_op(m1, LinkOpV::Ensure { link, target }), Seq::<
        LinkOpV,
    >::empty())) by {
        assert(ops.drop_first()[0] == LinkOpV::Ensure { link, target });
        assert(ops.drop_first().drop_first() =~= Seq::<LinkOpV>::empty());
    }
    assert(m2 == m1.insert(link, target));
}

} // verus!
