use crate::error::EngineError;
use crate::model::{expiry_horizon, is_acceptable, CreateLinkRequest, Link};
use crate::slug::{draw_slug, is_generated_slug};
use crate::state::{lemma_no_clicks_without_link, new_row, owns};
use crate::store::{LinkStore, StoredLink};
use vstd::prelude::*;
use vstd::string::*;

verus! {

/// `now` plus `secs`, where that is a time that can be stored.
fn add_seconds(now: i64, secs: u64) -> (sum: Option<i64>)
    ensures
        match sum {
            Some(t) => t == now + secs,
            None => now + secs > i64::MAX,
        },
{
    let sum: i128 = now as i128 + secs as i128;
    if sum > i64::MAX as i128 {
        None
    } else {
        Some(sum as i64)
    }
}

impl LinkStore {
    /// Adds a link. A slug that is taken is refused and nothing changes.
    pub fn create(
        &mut self,
        slug: String,
        target_url: String,
        expires_at: Option<i64>,
        now: i64,
    ) -> (outcome: Result<Link, EngineError>)
        requires
            old(self).wf(),
        ensures
            final(self).wf(),
            match outcome {
                Ok(link) => {
                    &&& !old(self)@.has_slug(slug@)
                    &&& final(self)@ == old(self)@.with_link(
                        new_row(slug@, target_url@, expires_at, now),
                    )
                    &&& link@ == final(self)@.present(new_row(slug@, target_url@, expires_at, now))
                    &&& link@.clicks == 0
                },
                Err(e) => {
                    &&& e == EngineError::Conflict
                    &&& old(self)@.has_slug(slug@)
                    &&& final(self)@ == old(self)@
                },
            },
    {
        if self.position(&slug).is_some() {
            return Err(EngineError::Conflict);
        }
        let stored = StoredLink { slug, target_url, created_at: now, updated_at: now, expires_at };
        self.links.push(stored);
        proof {
            let row = new_row(slug@, target_url@, expires_at, now);
            assert(self@.links =~= old(self)@.links.push(row));
            assert(self@ == old(self)@.with_link(row));
            assert forall|k: int| 0 <= k < self@.clicks.len() implies owns(
                self@.links,
                #[trigger] self@.clicks[k],
            ) by {
                let c = old(self)@.clicks[k];
                assert(owns(old(self)@.links, c));
                let i = choose|i: int|
                    #![trigger old(self)@.links[i]]
                    0 <= i < old(self)@.links.len() && old(self)@.links[i].slug == c.slug
                        && old(self)@.links[i].expires_at == c.expires_at;
                assert(self@.links[i] == old(self)@.links[i]);
            }
            lemma_no_clicks_without_link(old(self)@, slug@);
        }
        let last = self.links.len() - 1;
        let link = self.show(last);
        Ok(link)
    }

    /// Draws slugs until one is free, at most `retry_budget` times. All draws
    /// taken is reported as an error of its own; no slug is made up.
    pub fn generate_unique_slug(&self, retry_budget: u32) -> (outcome: Result<String, EngineError>)
        ensures
            match outcome {
                Ok(slug) => is_generated_slug(slug@) && !self@.has_slug(slug@),
                Err(e) => e == EngineError::ExhaustedGeneration,
            },
            retry_budget == 0 ==> outcome is Err,
            retry_budget > 0 && self@.free_of_generated_slugs() ==> outcome is Ok,
    {
        let mut rng = rand::thread_rng();
        let mut draws: u32 = 0;
        while draws < retry_budget
            invariant
                draws <= retry_budget,
                draws > 0 ==> !self@.free_of_generated_slugs(),
            decreases retry_budget - draws,
        {
            let candidate = draw_slug(&mut rng);
            if self.position(&candidate).is_none() {
                return Ok(candidate);
            }
            draws = draws + 1;
        }
        Err(EngineError::ExhaustedGeneration)
    }

    /// Creates the link that `request` asks for. A request without a target,
    /// or with an expiry that cannot be stored, is refused. An empty slug is
    /// replaced by a generated one; a given slug is used as it is. The expiry
    /// is fixed here, as `now` plus the requested lifetime.
    pub fn create_link(
        &mut self,
        request: CreateLinkRequest,
        now: i64,
        retry_budget: u32,
    ) -> (outcome: Result<Link, EngineError>)
        requires
            old(self).wf(),
        ensures
            final(self).wf(),
            !is_acceptable(request, now) ==> outcome == Err::<Link, EngineError>(
                EngineError::ValidationError,
            ),
            outcome is Err ==> final(self)@ == old(self)@,
            is_acceptable(request, now) && request.slug@.len() > 0 ==> match outcome {
                Ok(link) => !old(self)@.has_slug(request.slug@) && link@.row.slug == request.slug@,
                Err(e) => e == EngineError::Conflict && old(self)@.has_slug(request.slug@),
            },
            is_acceptable(request, now) && request.slug@.len() == 0 ==> match outcome {
                Ok(link) => is_generated_slug(link@.row.slug) && !old(self)@.has_slug(
                    link@.row.slug,
                ),
                Err(e) => e == EngineError::ExhaustedGeneration,
            },
            is_acceptable(request, now) && request.slug@.len() == 0 && retry_budget > 0 && old(
                self,
            )@.free_of_generated_slugs() ==> outcome is Ok,
            outcome matches Ok(link) ==> {
                &&& link@.row == new_row(
                    link@.row.slug,
                    request.target_url@,
                    expiry_horizon(now, request.expires_in_secs),
                    now,
                )
                &&& final(self)@ == old(self)@.with_link(link@.row)
                &&& link@ == final(self)@.present(link@.row)
                &&& link@.clicks == 0
            },
    {
        if request.target_url.as_str().is_empty() {
            return Err(EngineError::ValidationError);
        }
        let expires_at = match request.expires_in_secs {
            Some(secs) => match add_seconds(now, secs) {
                Some(t) => Some(t),
                None => {
                    return Err(EngineError::ValidationError);
                },
            },
            None => None,
        };
        let slug = if request.slug.as_str().is_empty() {
            match self.generate_unique_slug(retry_budget) {
                Ok(slug) => slug,
                Err(e) => {
                    return Err(e);
                },
            }
        } else {
            request.slug
        };
        self.create(slug, request.target_url, expires_at, now)
    }
}

} // verus!
