//! The second game's launcher companion.

use vstd::prelude::*;
use crate::text::{lowercase, seq_contains};
use crate::aoe::{companion_keeps, spec_companion_keeps};
use crate::ctx::Ctx;
use crate::github::ReleaseQuery;
use crate::text::views;

verus! {

/// Which companion release to fetch: the configured project's latest
/// release, its complete package.
pub fn launcher_companion_full_url(ctx: &Ctx) -> (r: ReleaseQuery)
    ensures
        r.user@ == ctx.spec_config().aoe2.gh_companion_user@,
        r.repo@ == ctx.spec_config().aoe2.gh_companion_repo@,
        r.version is None,
        views(r.search@) == seq!["_full_"@],
{
    let mut search = Vec::new();
    search.push(String::from_str("_full_"));
    assert(views(search@) =~= seq!["_full_"@]);
    ReleaseQuery {
        user: ctx.config().aoe2.gh_companion_user.clone(),
        repo: ctx.config().aoe2.gh_companion_repo.clone(),
        version: None,
        search,
    }
}

/// Whether a file of the companion's archive is installed for this game:
/// its lower-case name holds `age2` or `fakehost`.
pub fn is_companion_file(name: &str) -> (r: bool)
    ensures
        r == spec_companion_keeps(name@, "age2"@),
        r == (seq_contains(lowercase(name@), "age2"@) || seq_contains(lowercase(name@), "fakehost"@)),
{
    companion_keeps(name, "age2")
}

} // verus!
