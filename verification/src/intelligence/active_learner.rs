//! Learning plans for the domains that most need study.
use vstd::prelude::*;
use vstd::arithmetic::div_mod::lemma_fundamental_div_mod_converse;
use crate::text::{chars_of, push_str, push_chars, string_from};

verus! {

/// How many of the top-priority domains a learning plan covers.
pub const PLAN_DOMAINS: usize = 5;

/// The difficulty of the `i`-th question about a domain.
pub open spec fn difficulty(i: int) -> Seq<char> {
    if i == 0 {
        "basic"@
    } else if i == 1 {
        "intermediate"@
    } else {
        "advanced"@
    }
}

/// The prompt for the `i`-th question about a domain.
pub open spec fn study_prompt(domain: Seq<char>, i: int) -> Seq<char> {
    "Ask a "@ + difficulty(i) + " question about "@ + domain
        + " and provide a thorough answer.\nQ:"@
}

/// How many questions each covered domain gets: an even share of the
/// prompts, at least one.
pub open spec fn per_domain(max_prompts: nat, n: nat) -> nat {
    let q = max_prompts / (if n == 0 { 1 } else { n });
    if q == 0 {
        1
    } else {
        q
    }
}

/// The number of domains a plan covers.
pub open spec fn covered(n: nat) -> nat {
    if n < PLAN_DOMAINS {
        n
    } else {
        PLAN_DOMAINS as nat
    }
}

/// The number of prompts of a plan.
pub open spec fn plan_len(max_prompts: nat, n: nat) -> nat {
    let total = covered(n) * per_domain(max_prompts, covered(n));
    if max_prompts < total {
        max_prompts
    } else {
        total
    }
}

/// The text of `difficulty(i)`.
fn difficulty_str(i: usize) -> (r: &'static str)
    ensures
        r@ == difficulty(i as int),
{
    if i == 0 {
        "basic"
    } else if i == 1 {
        "intermediate"
    } else {
        "advanced"
    }
}

/// A learning plan over the prioritized domains (most urgent first): the
/// first five domains each get an even share of at most `max_prompts`
/// questions, of rising difficulty, domain after domain.
pub fn generate_learning_plan(priority_domains: &[String], max_prompts: usize) -> (r: Vec<(String, String)>)
    ensures
        r@.len() == plan_len(max_prompts as nat, priority_domains@.len()),
        forall|e: int|
            #![trigger r@[e]]
            0 <= e < r@.len() ==> {
                let per = per_domain(max_prompts as nat, covered(priority_domains@.len()));
                &&& r@[e].0@ == priority_domains@[e / per as int]@
                &&& r@[e].1@ == study_prompt(priority_domains@[e / per as int]@, e % per as int)
            },
{
    let n = if priority_domains.len() < PLAN_DOMAINS {
        priority_domains.len()
    } else {
        PLAN_DOMAINS
    };
    let q = max_prompts / (if n == 0 {
        1
    } else {
        n
    });
    let per = if q == 0 {
        1
    } else {
        q
    };
    let ghost ds = priority_domains@;
    assert(per == per_domain(max_prompts as nat, covered(ds.len())));
    let mut prompts: Vec<(String, String)> = Vec::new();
    let mut k: usize = 0;
    while k < n && prompts.len() < max_prompts
        invariant
            n == covered(ds.len()),
            n <= ds.len(),
            ds == priority_domains@,
            per == per_domain(max_prompts as nat, n as nat),
            per >= 1,
            k <= n,
            prompts@.len() == (if max_prompts < k * per { max_prompts as int } else { k * per }),
            forall|e: int|
                #![trigger prompts@[e]]
                0 <= e < prompts@.len() ==> {
                    &&& prompts@[e].0@ == ds[e / per as int]@
                    &&& prompts@[e].1@ == study_prompt(ds[e / per as int]@, e % per as int)
                },
        decreases n - k,
    {
        let dom = chars_of(priority_domains[k].as_str());
        let mut i: usize = 0;
        while i < per && prompts.len() < max_prompts
            invariant
                n <= ds.len(),
                ds == priority_domains@,
                k < n,
                per >= 1,
                i <= per,
                dom@ == ds[k as int]@,
                k * per < max_prompts,
                prompts@.len() == (if max_prompts < k * per + i { max_prompts as int } else { k * per + i }),
                forall|e: int|
                    #![trigger prompts@[e]]
                    0 <= e < prompts@.len() ==> {
                        &&& prompts@[e].0@ == ds[e / per as int]@
                        &&& prompts@[e].1@ == study_prompt(ds[e / per as int]@, e % per as int)
                    },
            decreases per - i,
        {
            let mut text: Vec<char> = Vec::new();
            push_str(&mut text, "Ask a ");
            push_str(&mut text, difficulty_str(i));
            push_str(&mut text, " question about ");
            push_chars(&mut text, dom.as_slice());
            push_str(&mut text, " and provide a thorough answer.\nQ:");
            let d = string_from(dom.as_slice());
            let t = string_from(text.as_slice());
            proof {
                let e = k * per + i;
                lemma_fundamental_div_mod_converse(e, per as int, k as int, i as int);
                assert(t@ =~= study_prompt(ds[k as int]@, i as int));
            }
            prompts.push((d, t));
            i = i + 1;
        }
        proof {
            assert(k * per + per == (k + 1) * per) by (nonlinear_arith);
        }
        k = k + 1;
    }
    proof {
        if k < n {
            assert(k * per <= n * per) by (nonlinear_arith)
                requires
                    k < n,
                    per >= 1,
            ;
        }
    }
    prompts
}

} // verus!
