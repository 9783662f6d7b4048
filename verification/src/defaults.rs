//! Default values of `kiln.toml` fields.

use crate::float::Double;
use crate::text;
use vstd::prelude::*;
use vstd::string::*;

verus! {

pub fn host() -> (r: String)
    ensures
        r@ == "127.0.0.1"@,
{
    "127.0.0.1".to_owned()
}

pub fn port() -> (r: u16)
    ensures
        r == 8080,
{
    8080
}

pub fn runtime_dir() -> (r: String)
    ensures
        r@ == "~/.kiln/run"@,
{
    "~/.kiln/run".to_owned()
}

pub fn cache_dir() -> (r: String)
    ensures
        r@ == "~/.kiln/cache"@,
{
    "~/.kiln/cache".to_owned()
}

pub fn model_dir() -> (r: String)
    ensures
        r@ == "~/.kiln/models"@,
{
    "~/.kiln/models".to_owned()
}

pub fn jobs_db() -> (r: String)
    ensures
        r@ == "~/.kiln/jobs.db"@,
{
    "~/.kiln/jobs.db".to_owned()
}

/// The bits of the double nearest to 0.80.
pub fn budget_fraction() -> (r: Double)
    ensures
        r.bits == 0x3fe9_9999_9999_999a,
{
    Double { bits: 0x3fe9_9999_9999_999a }
}

pub fn max_batch_tokens() -> (r: u32)
    ensures
        r == 8192,
{
    8192
}

pub fn prefill_chunk() -> (r: u32)
    ensures
        r == 2048,
{
    2048
}

pub fn block_size() -> (r: u32)
    ensures
        r == 32,
{
    32
}

pub fn ssd_cache_max_gb() -> (r: u64)
    ensures
        r == 64,
{
    64
}

pub fn ssd_tier() -> (r: bool)
    ensures
        r,
{
    true
}

pub fn gamma() -> (r: u32)
    ensures
        r == 4,
{
    4
}

/// A command line of one word.
pub fn command(program: &str) -> (r: Vec<String>)
    ensures
        text::list_view(r@) == seq![program@],
{
    let mut argv: Vec<String> = Vec::new();
    argv.push(program.to_owned());
    assert(text::list_view(argv@) =~= seq![program@]);
    argv
}

} // verus!
