//! Chains of transforms: what a chain makes of the vectors sent through it,
//! and how it is trained.

use vstd::prelude::*;
use crate::error::STATUS_REFUSED;
use crate::layout::count;
use crate::layout::lemma_count_exact;
use crate::native::transform::TransformModel;
use crate::native::transform::NativeTransform;
use crate::native::transform::apply_ok;
use crate::native::transform::applied;
use crate::native::transform::train_ok;
use crate::native::transform::trained_on;
use crate::native::transform::lemma_images_len;
use crate::native::transform::mean;

verus! {

/// A chain is well formed if it has a stage, each stage is well formed, and
/// each stage gives vectors of the dimension that the next one takes.
pub open spec fn chain_wf(chain: Seq<TransformModel>) -> bool {
    &&& chain.len() >= 1
    &&& forall|i: int| 0 <= i < chain.len() ==> (#[trigger] chain[i]).wf()
    &&& forall|i: int| 0 <= i < chain.len() - 1 ==> (#[trigger] chain[i]).d_out == chain[i + 1].d_in
}

/// `data` after the first `i` stages of the chain.
pub open spec fn through(chain: Seq<TransformModel>, data: Seq<i32>, i: nat) -> Seq<i32>
    decreases i,
{
    if i == 0 {
        data
    } else {
        applied(chain[i - 1], through(chain, data, (i - 1) as nat))
    }
}

/// Whether each of the first `i` stages can be applied to what reaches it.
pub open spec fn passes(chain: Seq<TransformModel>, data: Seq<i32>, i: nat) -> bool
    decreases i,
{
    i == 0 || {
        &&& passes(chain, data, (i - 1) as nat)
        &&& apply_ok(chain[i - 1], through(chain, data, (i - 1) as nat))
    }
}

/// Training data after the first `i` stages, each stage trained on what
/// reaches it before it is applied.
pub open spec fn staged(chain: Seq<TransformModel>, data: Seq<i32>, i: nat) -> Seq<i32>
    decreases i,
{
    if i == 0 {
        data
    } else {
        let prev = staged(chain, data, (i - 1) as nat);
        applied(trained_on(chain[i - 1], prev), prev)
    }
}

/// Whether each of the first `i` stages can be trained on what reaches it and
/// then applied to it.
pub open spec fn stages_ok(chain: Seq<TransformModel>, data: Seq<i32>, i: nat) -> bool
    decreases i,
{
    i == 0 || {
        let prev = staged(chain, data, (i - 1) as nat);
        &&& stages_ok(chain, data, (i - 1) as nat)
        &&& train_ok(chain[i - 1], prev)
        &&& apply_ok(trained_on(chain[i - 1], prev), prev)
    }
}

/// The chain with each stage trained on the training data that reaches it.
pub open spec fn trained_chain(chain: Seq<TransformModel>, data: Seq<i32>) -> Seq<TransformModel> {
    Seq::new(chain.len(), |i: int| trained_on(chain[i], staged(chain, data, i as nat)))
}

/// The dimension of the vectors that leave stage `i - 1` and reach stage `i`.
pub open spec fn stage_dim(chain: Seq<TransformModel>, i: nat) -> nat {
    if i == 0 {
        chain[0].d_in
    } else {
        chain[i - 1].d_out
    }
}

/// A chain hands on as many vectors as it is given.
pub proof fn lemma_through_count(chain: Seq<TransformModel>, data: Seq<i32>, i: nat)
    requires
        chain_wf(chain),
        i <= chain.len(),
    ensures
        count(through(chain, data, i).len(), stage_dim(chain, i)) == count(
            data.len(),
            chain[0].d_in,
        ),
        i > 0 ==> through(chain, data, i).len() == count(data.len(), chain[0].d_in) * stage_dim(
            chain,
            i,
        ),
    decreases i,
{
    if i > 0 {
        let m = (i - 1) as nat;
        let t = chain[i - 1];
        let prev = through(chain, data, m);
        lemma_through_count(chain, data, m);
        assert(t.wf());
        if m > 0 {
            assert(chain[m - 1].d_out == chain[m - 1 + 1].d_in);
        }
        assert(t.d_in == stage_dim(chain, m));
        let n = count(prev.len(), t.d_in);
        lemma_images_len(t, prev, n);
        lemma_count_exact(n, t.d_out);
    }
}

/// The contents of the stages of a chain.
pub open spec fn chain_model(chain: Seq<NativeTransform>) -> Seq<TransformModel> {
    Seq::new(chain.len(), |i: int| chain[i]@)
}

/// Stages that pass together pass one by one.
pub proof fn lemma_passes_prefix(chain: Seq<TransformModel>, data: Seq<i32>, i: nat, j: nat)
    requires
        i <= j,
        passes(chain, data, j),
    ensures
        passes(chain, data, i),
    decreases j,
{
    if i < j {
        lemma_passes_prefix(chain, data, i, (j - 1) as nat);
    }
}

/// Sends `data` through the chain, first stage to last.
pub fn run_chain(chain: &Vec<NativeTransform>, data: &[i32]) -> (r: Result<Vec<i32>, i32>)
    requires
        chain_wf(chain_model(chain@)),
    ensures
        match r {
            Ok(out) => {
                &&& passes(chain_model(chain@), data@, chain@.len())
                &&& out@ == through(chain_model(chain@), data@, chain@.len())
            },
            Err(code) => !passes(chain_model(chain@), data@, chain@.len()) && code
                == STATUS_REFUSED,
        },
{
    let ghost cm = chain_model(chain@);
    let len: usize = chain.len();
    assert(cm[0].wf());
    assert(through(cm, data@, 0) == data@);
    assert(passes(cm, data@, 0));
    let mut cur: Vec<i32> = match chain[0].apply(data) {
        Ok(out) => out,
        Err(code) => {
            proof {
                if passes(cm, data@, len as nat) {
                    lemma_passes_prefix(cm, data@, 1, len as nat);
                }
            }
            return Err(code);
        },
    };
    let mut i: usize = 1;
    while i < len
        invariant
            cm == chain_model(chain@),
            chain_wf(cm),
            len == chain@.len(),
            1 <= i <= len,
            passes(cm, data@, i as nat),
            cur@ == through(cm, data@, i as nat),
        decreases len - i,
    {
        assert(cm[i as int].wf());
        match chain[i].apply(cur.as_slice()) {
            Ok(out) => {
                cur = out;
            },
            Err(code) => {
                proof {
                    if passes(cm, data@, len as nat) {
                        lemma_passes_prefix(cm, data@, (i + 1) as nat, len as nat);
                    }
                }
                return Err(code);
            },
        }
        i = i + 1;
    }
    Ok(cur)
}

/// Stages that can be trained together can be trained one by one.
pub proof fn lemma_stages_prefix(chain: Seq<TransformModel>, data: Seq<i32>, i: nat, j: nat)
    requires
        i <= j,
        stages_ok(chain, data, j),
    ensures
        stages_ok(chain, data, i),
    decreases j,
{
    if i < j {
        lemma_stages_prefix(chain, data, i, (j - 1) as nat);
    }
}

/// Whether the stage `t` can be trained on `input` and then applied to it.
pub open spec fn stage_ok(t: TransformModel, input: Seq<i32>) -> bool {
    train_ok(t, input) && apply_ok(trained_on(t, input), input)
}

/// Whether `learned` is what the stage `t` learns from `input`: nothing if it
/// is trained, else the mean of the input.
pub open spec fn learned_from(t: TransformModel, input: Seq<i32>, learned: Option<Vec<i32>>) -> bool {
    match learned {
        None => t.trained,
        Some(c) => !t.trained && c@ == mean(input, t.d_in),
    }
}

/// The stage `t` after it took up what it learned.
pub open spec fn taken_up(t: TransformModel, learned: Option<Vec<i32>>) -> TransformModel {
    match learned {
        None => t,
        Some(c) => t.centered(c@),
    }
}

/// What one stage learns from `input`, and what it makes of `input` once it
/// has learned it. The stage itself is left as it is.
fn learn_stage(stage: &NativeTransform, input: &[i32]) -> (r: Result<
    (Option<Vec<i32>>, Vec<i32>),
    i32,
>)
    requires
        stage.wf(),
    ensures
        match r {
            Ok((learned, out)) => {
                &&& stage_ok(stage@, input@)
                &&& learned_from(stage@, input@, learned)
                &&& out@ == applied(trained_on(stage@, input@), input@)
            },
            Err(code) => !stage_ok(stage@, input@) && code == STATUS_REFUSED,
        },
{
    if stage.is_trained() {
        match stage.apply(input) {
            Ok(out) => Ok((None, out)),
            Err(code) => Err(code),
        }
    } else {
        match stage.learn(input) {
            None => Err(STATUS_REFUSED),
            Some(center) => {
                match stage.apply_with(center.as_slice(), input) {
                    Ok(out) => Ok((Some(center), out)),
                    Err(code) => Err(code),
                }
            },
        }
    }
}

/// Sends training data through the chain, and collects what each stage
/// learns from what reaches it. The chain itself is left as it is.
pub fn learn_chain(chain: &Vec<NativeTransform>, data: &[i32]) -> (r: Result<
    (Vec<Option<Vec<i32>>>, Vec<i32>),
    i32,
>)
    requires
        chain_wf(chain_model(chain@)),
    ensures
        match r {
            Ok((learned, out)) => {
                &&& stages_ok(chain_model(chain@), data@, chain@.len())
                &&& out@ == staged(chain_model(chain@), data@, chain@.len())
                &&& learned@.len() == chain@.len()
                &&& forall|j: int|
                    0 <= j < chain@.len() ==> learned_from(
                        chain_model(chain@)[j],
                        staged(chain_model(chain@), data@, j as nat),
                        #[trigger] learned@[j],
                    )
            },
            Err(code) => !stages_ok(chain_model(chain@), data@, chain@.len()) && code
                == STATUS_REFUSED,
        },
{
    let ghost cm = chain_model(chain@);
    let len: usize = chain.len();
    let mut learned: Vec<Option<Vec<i32>>> = Vec::new();
    assert(cm[0].wf());
    assert(staged(cm, data@, 0) == data@);
    assert(stages_ok(cm, data@, 0));
    let mut cur: Vec<i32> = match learn_stage(&chain[0], data) {
        Ok((first, out)) => {
            learned.push(first);
            out
        },
        Err(code) => {
            proof {
                if stages_ok(cm, data@, len as nat) {
                    lemma_stages_prefix(cm, data@, 1, len as nat);
                }
            }
            return Err(code);
        },
    };
    let mut i: usize = 1;
    while i < len
        invariant
            cm == chain_model(chain@),
            chain_wf(cm),
            len == chain@.len(),
            1 <= i <= len,
            stages_ok(cm, data@, i as nat),
            cur@ == staged(cm, data@, i as nat),
            learned@.len() == i,
            forall|j: int|
                0 <= j < i ==> learned_from(cm[j], staged(cm, data@, j as nat), #[trigger] learned@[j]),
        decreases len - i,
    {
        assert(cm[i as int].wf());
        match learn_stage(&chain[i], cur.as_slice()) {
            Ok((next, out)) => {
                learned.push(next);
                cur = out;
            },
            Err(code) => {
                proof {
                    if stages_ok(cm, data@, len as nat) {
                        lemma_stages_prefix(cm, data@, (i + 1) as nat, len as nat);
                    }
                }
                return Err(code);
            },
        }
        i = i + 1;
    }
    Ok((learned, cur))
}

/// Lets each stage take up what it learned.
pub fn adopt_chain(chain: &mut Vec<NativeTransform>, learned: Vec<Option<Vec<i32>>>)
    requires
        learned@.len() == old(chain)@.len(),
        forall|j: int| 0 <= j < old(chain)@.len() ==> (#[trigger] old(chain)@[j]).wf(),
        forall|j: int|
            0 <= j < old(chain)@.len() ==> (#[trigger] learned@[j] matches Some(c) ==> c@.len()
                == old(chain)@[j]@.d_in),
    ensures
        final(chain)@.len() == old(chain)@.len(),
        forall|j: int|
            0 <= j < old(chain)@.len() ==> (#[trigger] final(chain)@[j])@ == taken_up(
                old(chain)@[j]@,
                learned@[j],
            ),
{
    let ghost before = chain@;
    let ghost all = learned@;
    let mut learned = learned;
    let mut j: usize = chain.len();
    while j > 0
        invariant
            chain@.len() == before.len(),
            all.len() == before.len(),
            j <= before.len(),
            learned@ == all.take(j as int),
            forall|x: int| 0 <= x < j ==> #[trigger] chain@[x] == before[x],
            forall|x: int| 0 <= x < before.len() ==> (#[trigger] before[x]).wf(),
            forall|x: int|
                0 <= x < before.len() ==> (#[trigger] all[x] matches Some(c) ==> c@.len()
                    == before[x]@.d_in),
            forall|x: int|
                j <= x < before.len() ==> (#[trigger] chain@[x])@ == taken_up(before[x]@, all[x]),
        decreases j,
    {
        j = j - 1;
        let last: Option<Option<Vec<i32>>> = learned.pop();
        assert(last == Some(all[j as int]));
        assert(learned@ =~= all.take(j as int));
        match last {
            Some(Some(center)) => {
                assert(chain@[j as int] == before[j as int]);
                chain[j].adopt(center);
            },
            _ => {},
        }
    }
}

} // verus!
