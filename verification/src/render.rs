//! The render step: a mirrored skin, tinted as a request asks, drawn as one
//! image.

use tee_morphosis::error::TeeError;
use tee_morphosis::tee::parts::{EyeType, TeePart};
use tee_morphosis::tee::Tee;
use vstd::prelude::*;
use crate::cache::{cached, CacheItemView, CacheStore};
use crate::error::{Error, ErrorView};
use crate::rsync::lock::{LockMetaView, LockStore};
use crate::skin::{SkinQuery, SkinQueryView};

verus! {

/// `tee_morphosis::error::TeeError`, the renderer's refusal. Nothing of its
/// inside is known here.
#[verifier::external_type_specification]
#[verifier::external_body]
pub struct ExTeeError(TeeError);

/// `tee_morphosis::tee::parts::TeePart`: the names of the parts that can be
/// recoloured.
#[verifier::external_type_specification]
pub struct ExTeePart(TeePart);

/// `tee_morphosis::tee::parts::EyeType`: the names of the expressions that a
/// skin can be drawn with.
#[verifier::external_type_specification]
pub struct ExEyeType(EyeType);

/// The values of a list of tints, in order: each a colour and the parts
/// that it recolours.
pub open spec fn tint_views(tints: Seq<(u32, Vec<TeePart>)>) -> Seq<(u32, Seq<TeePart>)> {
    tints.map_values(|t: (u32, Vec<TeePart>)| (t.0, t.1@))
}

/// The image that the renderer draws from the sprite sheet `source` after
/// the tints were applied in order, with the eyes asked for, or `None`
/// where it refuses. The renderer decides by these three alone.
pub uninterp spec fn tee_image(
    source: Seq<u8>,
    tints: Seq<(u32, Seq<TeePart>)>,
    eyes: EyeType,
) -> Option<Seq<u8>>;

/// The renderer as one step: `Tee::new` reads `source` as a PNG sprite
/// sheet; `Tee::apply_hsl_to_parts` recolours, for each tint in order, the
/// parts of the tint with the colour that `ddnet_color_to_hsl` gives for
/// it; `Tee::compose_png` draws the parts in the crate's standard layout
/// `TEE_SKIN_LAYOUT`. What comes back is the image, under the name
/// `tee_image`, or the refusal of the step that failed.
#[verifier::external_body]
fn tee_render(source: &[u8], tints: &Vec<(u32, Vec<TeePart>)>, eyes: EyeType) -> (r: Result<
    Vec<u8>,
    TeeError,
>)
    ensures
        r is Ok == tee_image(source@, tint_views(tints@), eyes) is Some,
        r matches Ok(image) ==> Some(image@) == tee_image(source@, tint_views(tints@), eyes),
{
    let mut tee = Tee::new(source.to_vec().into(), image::ImageFormat::Png)?;
    for (color, parts) in tints {
        tee.apply_hsl_to_parts(tee_morphosis::tee::hsl::ddnet_color_to_hsl(*color), parts);
    }
    tee.compose_png(tee_morphosis::tee::skin::TEE_SKIN_LAYOUT, eyes).map(|image| image.to_vec())
}

/// `TeeError`'s `Display`: the error as text. Nothing is claimed of it.
#[verifier::external_body]
fn tee_error_text(error: &TeeError) -> String {
    error.to_string()
}

/// The tint of the body: the colour goes to the body and to its shadow.
pub open spec fn body_tint(color: u32) -> (u32, Seq<TeePart>) {
    (color, seq![TeePart::Body, TeePart::BodyShadow])
}

/// The tint of the feet: the colour goes to the feet and to their shadow.
pub open spec fn feet_tint(color: u32) -> (u32, Seq<TeePart>) {
    (color, seq![TeePart::Feet, TeePart::FeetShadow])
}

/// The tints that a request asks of the renderer, in the order in which
/// they are applied: that of the body if the request has one, then that of
/// the feet if it has one. A part without a tint keeps its colours.
pub open spec fn tints_of(body: Option<u32>, feet: Option<u32>) -> Seq<(u32, Seq<TeePart>)> {
    let first = match body {
        Some(color) => seq![body_tint(color)],
        None => Seq::empty(),
    };
    match feet {
        Some(color) => first.push(feet_tint(color)),
        None => first,
    }
}

/// The image of a request: what the renderer draws from `source` with the
/// tints of the request and happy eyes, or `None` where it refuses.
pub open spec fn rendering(source: Seq<u8>, body: Option<u32>, feet: Option<u32>) -> Option<
    Seq<u8>,
> {
    tee_image(source, tints_of(body, feet), EyeType::Happy)
}

/// The tints that a request asks of the renderer, in order.
pub fn tint_plan(body: Option<u32>, feet: Option<u32>) -> (r: Vec<(u32, Vec<TeePart>)>)
    ensures
        tint_views(r@) == tints_of(body, feet),
{
    let mut plan: Vec<(u32, Vec<TeePart>)> = Vec::new();
    if let Some(color) = body {
        let mut parts: Vec<TeePart> = Vec::new();
        parts.push(TeePart::Body);
        parts.push(TeePart::BodyShadow);
        plan.push((color, parts));
        assert(plan@[0].1@ =~= body_tint(color).1);
    }
    if let Some(color) = feet {
        let ghost before = tint_views(plan@);
        let mut parts: Vec<TeePart> = Vec::new();
        parts.push(TeePart::Feet);
        parts.push(TeePart::FeetShadow);
        assert(parts@ =~= feet_tint(color).1);
        plan.push((color, parts));
        assert(tint_views(plan@) =~= before.push(feet_tint(color)));
    }
    assert(tint_views(plan@) =~= tints_of(body, feet));
    plan
}

/// Renders the sprite sheet `source` as a request asks. A body tint
/// recolours the body and its shadow, a feet tint the feet and their
/// shadow; without a tint the part keeps its colours. The skin is drawn
/// with happy eyes. What comes back is what the renderer gives for the
/// source and these tints: its image, or its refusal as a rendering error,
/// and no other error.
pub fn render_source(source: &[u8], body: Option<u32>, feet: Option<u32>) -> (r: Result<
    Vec<u8>,
    Error,
>)
    ensures
        r is Ok == rendering(source@, body, feet) is Some,
        r matches Ok(image) ==> Some(image@) == rendering(source@, body, feet),
        r matches Err(e) ==> e is Tee,
{
    let plan = tint_plan(body, feet);
    match tee_render(source, &plan, EyeType::Happy) {
        Ok(image) => Ok(image),
        Err(e) => Err(Error::Tee(tee_error_text(&e))),
    }
}

/// Where the answer to a render request comes from.
#[derive(Debug, PartialEq, Eq)]
pub enum Located {
    /// The cache has a fresh image for the request.
    Cached(Vec<u8>),
    /// The image has to be rendered from the local copy at `path`.
    Source { path: String },
    /// The store has no skin of that name.
    Unknown,
}

/// The mathematical value of a `Located`.
pub enum LocatedView {
    Cached(Seq<u8>),
    Source { path: Seq<char> },
    Unknown,
}

impl View for Located {
    type V = LocatedView;

    open spec fn view(&self) -> LocatedView {
        match self {
            Located::Cached(image) => LocatedView::Cached(image@),
            Located::Source { path } => LocatedView::Source { path: path@ },
            Located::Unknown => LocatedView::Unknown,
        }
    }
}

/// Where the answer to `query` comes from at the reading `now`: from the
/// cache if it has a fresh entry; else from the local copy of the skin, if
/// the store has a record of its name.
pub open spec fn located(
    records: Map<Seq<char>, LockMetaView>,
    entries: Map<SkinQueryView, CacheItemView>,
    query: SkinQueryView,
    now: nat,
) -> LocatedView {
    match cached(entries, query, now) {
        Some(image) => LocatedView::Cached(image),
        None => if records.contains_key(query.name) {
            LocatedView::Source { path: records[query.name].path }
        } else {
            LocatedView::Unknown
        },
    }
}

/// The cache after a render: an image is stored under its request with the
/// stamp `now`; a failure leaves the cache as it was.
pub open spec fn after_render(
    entries: Map<SkinQueryView, CacheItemView>,
    query: SkinQueryView,
    rendered: Result<Seq<u8>, ErrorView>,
    now: nat,
) -> Map<SkinQueryView, CacheItemView> {
    match rendered {
        Ok(image) => entries.insert(query, CacheItemView { timestamp: now, data: image }),
        Err(_) => entries,
    }
}

/// The value of the outcome of a render.
pub open spec fn rendered_view(rendered: Result<Vec<u8>, Error>) -> Result<Seq<u8>, ErrorView> {
    match rendered {
        Ok(image) => Ok(image@),
        Err(e) => Err(e@),
    }
}

/// Takes the outcome of a render at the reading `now`: an image goes into
/// the cache under its request, stamped `now`, and is handed on; a failure
/// is handed on and the cache stays as it was.
pub fn settle_at(
    cache: &mut CacheStore,
    query: &SkinQuery,
    rendered: Result<Vec<u8>, Error>,
    now: u128,
) -> (r: Result<Vec<u8>, Error>)
    ensures
        final(cache)@ == after_render(old(cache)@, query@, rendered_view(rendered), now as nat),
        r == rendered,
{
    if let Ok(image) = &rendered {
        cache.save_at(query, image.as_slice(), now);
    }
    rendered
}

/// Whether `after` is `before` with an entry for `query` that holds `image`,
/// stamped with some reading of the clock, and nothing else changed.
pub open spec fn holds_render(
    before: Map<SkinQueryView, CacheItemView>,
    after: Map<SkinQueryView, CacheItemView>,
    query: SkinQueryView,
    image: Seq<u8>,
) -> bool {
    exists|now: nat| after == after_render(before, query, Ok(image), now)
}

/// Takes the outcome of a render, with the cache's clock for the stamp: an
/// image goes into the cache under its request and is handed on; a failure
/// is handed on and the cache stays as it was.
pub fn settle(cache: &mut CacheStore, query: &SkinQuery, rendered: Result<Vec<u8>, Error>) -> (r:
    Result<Vec<u8>, Error>)
    ensures
        r == rendered,
        r is Err ==> final(cache)@ == old(cache)@,
        r matches Ok(image) ==> holds_render(old(cache)@, final(cache)@, query@, image@),
{
    let now = cache.now();
    settle_at(cache, query, rendered, now)
}

impl LockStore {
    /// Decides where the answer to a request comes from at the reading
    /// `now`. Neither the cache nor the store is changed.
    pub fn locate_at(&self, cache: &CacheStore, query: &SkinQuery, now: u128) -> (r: Located)
        ensures
            r@ == located(self@, cache@, query@, now as nat),
    {
        match cache.get_at(query, now) {
            Some(image) => Located::Cached(image),
            None => match self.lookup(query.name.as_str()) {
                Some(meta) => Located::Source { path: meta.path },
                None => Located::Unknown,
            },
        }
    }

    /// Decides where the answer to a request comes from, by the cache's
    /// clock. Whatever the clock reads: an image from the cache is the one
    /// that is stored for this request; a request without an entry is never
    /// answered from the cache; the path is the one that the store has for
    /// the name; and a skin is unknown only if the store has no record of it.
    pub fn locate(&self, cache: &CacheStore, query: &SkinQuery) -> (r: Located)
        ensures
            exists|now: nat| r@ == located(self@, cache@, query@, now),
            r matches Located::Cached(image) ==> cache@.contains_key(query@) && image@
                == cache@[query@].data,
            r matches Located::Source { path } ==> self@.contains_key(query@.name) && path@
                == self@[query@.name].path,
            r is Unknown ==> !self@.contains_key(query@.name),
    {
        let now = cache.now();
        self.locate_at(cache, query, now)
    }

    /// Answers a request that the cache could not answer, given what
    /// reading the local copy of the skin gave: the bytes, or the cause of
    /// the failure. A name that the store does not hold is an unknown skin,
    /// whatever was read; a copy that could not be read is an I/O error. Else
    /// the skin is rendered with the tints of the request: the renderer's
    /// image is stored in the cache under the request and returned, its
    /// refusal is a rendering error. No failure changes the cache.
    pub fn get(&self, cache: &mut CacheStore, query: &SkinQuery, source: Result<Vec<u8>, String>) -> (r:
        Result<Vec<u8>, Error>)
        ensures
            !self@.contains_key(query@.name) ==> r matches Err(Error::QueryNameNotFound),
            self@.contains_key(query@.name) ==> (source matches Err(cause) ==> r matches Err(
                Error::Io(text),
            ) && text@ == cause@),
            self@.contains_key(query@.name) ==> (source matches Ok(bytes) ==> (r is Ok)
                == rendering(bytes@, query@.body, query@.feet) is Some),
            self@.contains_key(query@.name) ==> (source matches Ok(bytes) ==> (r matches Ok(image)
                ==> Some(image@) == rendering(bytes@, query@.body, query@.feet))),
            self@.contains_key(query@.name) && source is Ok ==> (r matches Err(e) ==> e is Tee),
            r is Err ==> final(cache)@ == old(cache)@,
            r matches Ok(image) ==> holds_render(old(cache)@, final(cache)@, query@, image@),
    {
        if self.lookup(query.name.as_str()).is_none() {
            return Err(Error::QueryNameNotFound);
        }
        match source {
            Err(cause) => Err(Error::Io(cause)),
            Ok(bytes) => {
                let rendered = render_source(bytes.as_slice(), query.body, query.feet);
                settle(cache, query, rendered)
            },
        }
    }
}

} // verus!
