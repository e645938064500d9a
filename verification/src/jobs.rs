//! Job options: the `#[job(..)]` attribute of `#[derive(Job)]` and the
//! trailing `key = value` options of `job!`. Values are expressions of the
//! caller's code, so an option is known by the index of the `key = value`
//! pair whose value it takes; a later pair for the same option wins.
use vstd::prelude::*;
use crate::text::{push_str, str_eq};

verus! {

/// The options of a `#[derive(Job)]` type.
#[derive(Debug, Clone, Copy, PartialEq, Eq, Structural)]
pub struct JobAttrOptions {
    /// `job_type` / `name`; without it the job type is the type's name
    pub job_type: Option<usize>,
    pub queue: Option<usize>,
    /// `retries` / `max_retries`
    pub retries: Option<usize>,
    pub timeout: Option<usize>,
    pub priority: Option<usize>,
}

/// The options of a `job!` definition.
#[derive(Debug, Clone, Copy, PartialEq, Eq, Structural)]
pub struct JobMacroOptions {
    pub retries: Option<usize>,
    pub timeout: Option<usize>,
    pub backoff: Option<usize>,
    pub queue: Option<usize>,
}

/// The attribute options after the keys `keys`, or the message for the
/// first unknown key.
pub open spec fn attr_options(keys: Seq<Seq<char>>) -> Result<JobAttrOptions, Seq<char>>
    decreases keys.len(),
{
    if keys.len() == 0 {
        Ok(JobAttrOptions { job_type: None, queue: None, retries: None, timeout: None, priority: None })
    } else {
        match attr_options(keys.drop_last()) {
            Err(e) => Err(e),
            Ok(o) => {
                let k = keys.last();
                let i = Some((keys.len() - 1) as usize);
                if k == "job_type"@ || k == "name"@ {
                    Ok(JobAttrOptions { job_type: i, ..o })
                } else if k == "queue"@ {
                    Ok(JobAttrOptions { queue: i, ..o })
                } else if k == "retries"@ || k == "max_retries"@ {
                    Ok(JobAttrOptions { retries: i, ..o })
                } else if k == "timeout"@ {
                    Ok(JobAttrOptions { timeout: i, ..o })
                } else if k == "priority"@ {
                    Ok(JobAttrOptions { priority: i, ..o })
                } else {
                    Err(
                        "unknown #[job] option `"@ + k
                            + "`; expected one of: job_type, queue, retries, timeout, priority"@,
                    )
                }
            },
        }
    }
}

/// The `job!` options after the names `names`, or the message for the
/// first unknown name.
pub open spec fn macro_options(names: Seq<Seq<char>>) -> Result<JobMacroOptions, Seq<char>>
    decreases names.len(),
{
    if names.len() == 0 {
        Ok(JobMacroOptions { retries: None, timeout: None, backoff: None, queue: None })
    } else {
        match macro_options(names.drop_last()) {
            Err(e) => Err(e),
            Ok(o) => {
                let k = names.last();
                let i = Some((names.len() - 1) as usize);
                if k == "retries"@ {
                    Ok(JobMacroOptions { retries: i, ..o })
                } else if k == "timeout"@ {
                    Ok(JobMacroOptions { timeout: i, ..o })
                } else if k == "backoff"@ {
                    Ok(JobMacroOptions { backoff: i, ..o })
                } else if k == "queue"@ {
                    Ok(JobMacroOptions { queue: i, ..o })
                } else {
                    Err("Unknown job option: "@ + k + ". Use retries, timeout, backoff, or queue"@)
                }
            },
        }
    }
}

proof fn lemma_attr_stop(keys: Seq<Seq<char>>, k: int)
    requires
        0 < k <= keys.len(),
        attr_options(keys.take(k)) is Err,
    ensures
        attr_options(keys) == attr_options(keys.take(k)),
    decreases keys.len() - k,
{
    if k < keys.len() {
        assert(keys.take(k + 1).drop_last() =~= keys.take(k));
        lemma_attr_stop(keys, k + 1);
    } else {
        assert(keys.take(k) =~= keys);
    }
}

proof fn lemma_macro_stop(names: Seq<Seq<char>>, k: int)
    requires
        0 < k <= names.len(),
        macro_options(names.take(k)) is Err,
    ensures
        macro_options(names) == macro_options(names.take(k)),
    decreases names.len() - k,
{
    if k < names.len() {
        assert(names.take(k + 1).drop_last() =~= names.take(k));
        lemma_macro_stop(names, k + 1);
    } else {
        assert(names.take(k) =~= names);
    }
}

/// The options of `#[job(k1 = v1, ..)]` with the keys `keys`: `job_type`
/// (or `name`), `queue`, `retries` (or `max_retries`), `timeout` and
/// `priority`, each taking the last pair that names it; an unknown key is
/// refused.
pub fn job_attr_options(keys: &Vec<String>) -> (r: Result<JobAttrOptions, String>)
    ensures
        match (r, attr_options(crate::text::views(keys@))) {
            (Ok(a), Ok(b)) => a == b,
            (Err(e), Err(m)) => e@ == m,
            _ => false,
        },
{
    let ghost ks = crate::text::views(keys@);
    let mut o = JobAttrOptions { job_type: None, queue: None, retries: None, timeout: None, priority: None };
    let mut i: usize = 0;
    while i < keys.len()
        invariant
            i <= keys.len(),
            ks == crate::text::views(keys@),
            attr_options(ks.take(i as int)) == Ok::<JobAttrOptions, Seq<char>>(o),
        decreases keys.len() - i,
    {
        proof {
            assert(ks.take(i + 1).drop_last() =~= ks.take(i as int));
            assert(ks.take(i + 1).last() == keys@[i as int]@);
        }
        let k = keys[i].as_str();
        if str_eq(k, "job_type") || str_eq(k, "name") {
            o.job_type = Some(i);
        } else if str_eq(k, "queue") {
            o.queue = Some(i);
        } else if str_eq(k, "retries") || str_eq(k, "max_retries") {
            o.retries = Some(i);
        } else if str_eq(k, "timeout") {
            o.timeout = Some(i);
        } else if str_eq(k, "priority") {
            o.priority = Some(i);
        } else {
            let mut e = String::new();
            push_str(&mut e, "unknown #[job] option `");
            push_str(&mut e, k);
            push_str(&mut e, "`; expected one of: job_type, queue, retries, timeout, priority");
            proof {
                lemma_attr_stop(ks, i + 1);
            }
            return Err(e);
        }
        i = i + 1;
    }
    proof {
        assert(ks.take(i as int) =~= ks);
    }
    Ok(o)
}

/// The options of `job!` with the option names `names`: `retries`,
/// `timeout`, `backoff` and `queue`, each taking the last pair that names
/// it; an unknown name is refused.
pub fn job_macro_options(names: &Vec<String>) -> (r: Result<JobMacroOptions, String>)
    ensures
        match (r, macro_options(crate::text::views(names@))) {
            (Ok(a), Ok(b)) => a == b,
            (Err(e), Err(m)) => e@ == m,
            _ => false,
        },
{
    let ghost ks = crate::text::views(names@);
    let mut o = JobMacroOptions { retries: None, timeout: None, backoff: None, queue: None };
    let mut i: usize = 0;
    while i < names.len()
        invariant
            i <= names.len(),
            ks == crate::text::views(names@),
            macro_options(ks.take(i as int)) == Ok::<JobMacroOptions, Seq<char>>(o),
        decreases names.len() - i,
    {
        proof {
            assert(ks.take(i + 1).drop_last() =~= ks.take(i as int));
            assert(ks.take(i + 1).last() == names@[i as int]@);
        }
        let k = names[i].as_str();
        if str_eq(k, "retries") {
            o.retries = Some(i);
        } else if str_eq(k, "timeout") {
            o.timeout = Some(i);
        } else if str_eq(k, "backoff") {
            o.backoff = Some(i);
        } else if str_eq(k, "queue") {
            o.queue = Some(i);
        } else {
            let mut e = String::new();
            push_str(&mut e, "Unknown job option: ");
            push_str(&mut e, k);
            push_str(&mut e, ". Use retries, timeout, backoff, or queue");
            proof {
                lemma_macro_stop(ks, i + 1);
            }
            return Err(e);
        }
        i = i + 1;
    }
    proof {
        assert(ks.take(i as int) =~= ks);
    }
    Ok(o)
}

} // verus!
