use rf_mail::jobs::{job_attr_options, job_macro_options, JobAttrOptions, JobMacroOptions};

fn keys(v: &[&str]) -> Vec<String> {
    v.iter().map(|s| s.to_string()).collect()
}

#[test]
fn attribute_options_and_aliases() {
    let o = job_attr_options(&keys(&["queue", "retries", "timeout", "priority"])).unwrap();
    assert_eq!(o, JobAttrOptions { job_type: None, queue: Some(0), retries: Some(1), timeout: Some(2), priority: Some(3) });
    let aliases = job_attr_options(&keys(&["name", "max_retries", "retries", "job_type"])).unwrap();
    assert_eq!(aliases.job_type, Some(3));
    assert_eq!(aliases.retries, Some(2));
    assert_eq!(job_attr_options(&vec![]).unwrap().job_type, None);
}

#[test]
fn attribute_unknown_key() {
    assert_eq!(
        job_attr_options(&keys(&["queue", "delay", "bogus"])).unwrap_err(),
        "unknown #[job] option `delay`; expected one of: job_type, queue, retries, timeout, priority"
    );
}

#[test]
fn macro_options_and_refusal() {
    let o = job_macro_options(&keys(&["backoff", "queue", "queue"])).unwrap();
    assert_eq!(o, JobMacroOptions { retries: None, timeout: None, backoff: Some(0), queue: Some(2) });
    assert_eq!(
        job_macro_options(&keys(&["retries", "priority"])).unwrap_err(),
        "Unknown job option: priority. Use retries, timeout, backoff, or queue"
    );
}
