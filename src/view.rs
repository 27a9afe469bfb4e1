//! The fragment view engine: renders a tracker, or its absence, as an HTML
//! fragment whose controls name the next legal transition.
use vstd::prelude::*;
use crate::html::{decimal, escaped, push_decimal, push_escaped, push_segment, segment};
use crate::model::{HikeModel, HikePeak, HikeTrackerModel, HikeView, TrackerView};
use crate::store::{
    docs_wf, has_name, index_of_id, lookup_name, rename_outcome, renamed, StoreError,
    TrackerStore,
};

verus! {

/// The view a request asks for.
#[derive(PartialEq, Eq, Structural, Clone, Copy, Debug)]
pub enum Mode {
    /// Read-only view, with a control that asks for the edit form.
    Display,
    /// A form pre-filled with the current name, with submit and cancel.
    Edit,
}

pub open spec fn not_found_markup() -> Seq<char> {
    "<h1>Not Found</h1>"@
}

pub open spec fn server_error_markup() -> Seq<char> {
    "<h1>Server Error</h1>"@
}

/// The path at which the tracker named `key` is displayed, as written in an
/// HTML attribute: `key` is one path segment, with `/`, `?`, `#` and `%`
/// percent-encoded and the HTML-special characters escaped.
pub open spec fn display_path(key: Seq<char>) -> Seq<char> {
    "/tracker/"@ + segment(key)
}

pub open spec fn hike_item(h: HikeView) -> Seq<char> {
    "<li>"@ + escaped(h.name) + ", rank: "@ + decimal(h.rank as nat) + "</li>"@
}

/// The hikes as list items, in their order.
pub open spec fn hike_items(hs: Seq<HikeView>) -> Seq<char>
    decreases hs.len(),
{
    if hs.len() == 0 {
        Seq::empty()
    } else {
        hike_items(hs.drop_last()) + hike_item(hs.last())
    }
}

/// The read-only view of a tracker: its name, its hikes, and a control that
/// asks for the edit form of the same tracker.
pub open spec fn display_markup(t: TrackerView) -> Seq<char> {
    "<div hx-target=\"this\" hx-swap=\"outerHTML\"><div><label>Name: </label>"@ + escaped(t.name)
        + "</div><ul>"@ + hike_items(t.hikes) + "</ul><button hx-get=\""@ + display_path(t.name)
        + "/edit\" class=\"btn btn-primary\">Click To Edit</button></div>"@
}

pub open spec fn conflict_markup(conflict: bool) -> Seq<char> {
    if conflict {
        "<div class=\"error\">That name is already taken</div>"@
    } else {
        Seq::empty()
    }
}

/// The edit form of the tracker named `key`, showing `value`: submit puts
/// to the tracker's path, cancel gets its display.
pub open spec fn edit_markup(key: Seq<char>, value: Seq<char>, conflict: bool) -> Seq<char> {
    "<form hx-put=\""@ + display_path(key)
        + "\" hx-target=\"this\" hx-swap=\"outerHTML\"><div><label>Name</label><input type=\"text\" name=\"trackerName\" value=\""@
        + escaped(value) + "\"></div>"@ + conflict_markup(conflict)
        + "<button class=\"btn\">Submit</button><button class=\"btn\" hx-get=\""@ + display_path(key)
        + "\">Cancel</button></form>"@
}

/// The fragment for a tracker or its absence, in a mode.
pub open spec fn fragment(found: Option<TrackerView>, mode: Mode) -> Seq<char> {
    match found {
        None => not_found_markup(),
        Some(t) => match mode {
            Mode::Display => display_markup(t),
            Mode::Edit => edit_markup(t.name, t.name, false),
        },
    }
}

pub open spec fn found_view(found: Option<&HikeTrackerModel>) -> Option<TrackerView> {
    match found {
        Some(t) => Some(t@),
        None => None,
    }
}

/// The fragment that answers a submitted rename of the tracker named `key`
/// to `submitted`, given how the store answered.
pub open spec fn submit_markup(
    key: Seq<char>,
    submitted: Seq<char>,
    outcome: Result<TrackerView, StoreError>,
) -> Seq<char> {
    match outcome {
        Ok(t) => display_markup(t),
        Err(StoreError::Conflict) => edit_markup(key, submitted, true),
        Err(StoreError::NotFound) => not_found_markup(),
        Err(StoreError::StoreUnavailable) => server_error_markup(),
    }
}

fn push_hikes(out: &mut String, hikes: &Vec<HikeModel>)
    ensures
        final(out)@ == old(out)@ + hike_items(hikes@.map_values(|h: HikeModel| h@)),
{
    let ghost hs = hikes@.map_values(|h: HikeModel| h@);
    let mut i: usize = 0;
    while i < hikes.len()
        invariant
            i <= hikes@.len(),
            hs == hikes@.map_values(|h: HikeModel| h@),
            out@ == old(out)@ + hike_items(hs.subrange(0, i as int)),
        decreases hikes@.len() - i,
    {
        let h = &hikes[i];
        out.append("<li>");
        push_escaped(out, h.name.as_str());
        out.append(", rank: ");
        push_decimal(out, h.rank as u64);
        out.append("</li>");
        proof {
            assert(hs.subrange(0, i + 1).drop_last() =~= hs.subrange(0, i as int));
            assert(hs[i as int] == h@);
            assert(out@ =~= old(out)@ + hike_items(hs.subrange(0, i + 1)));
        }
        i = i + 1;
    }
    assert(hs.subrange(0, hikes@.len() as int) =~= hs);
}

fn push_display_path(out: &mut String, key: &str)
    ensures
        final(out)@ == old(out)@ + display_path(key@),
{
    out.append("/tracker/");
    push_segment(out, key);
    assert(out@ =~= old(out)@ + display_path(key@));
}

/// The read-only view of `t`.
pub fn display_fragment(t: &HikeTrackerModel) -> (r: String)
    ensures
        r@ == display_markup(t@),
{
    let mut out = String::new();
    out.append("<div hx-target=\"this\" hx-swap=\"outerHTML\"><div><label>Name: </label>");
    push_escaped(&mut out, t.name.as_str());
    out.append("</div><ul>");
    push_hikes(&mut out, &t.hikes);
    out.append("</ul><button hx-get=\"");
    push_display_path(&mut out, t.name.as_str());
    out.append("/edit\" class=\"btn btn-primary\">Click To Edit</button></div>");
    assert(out@ =~= display_markup(t@));
    out
}

/// The edit form of the tracker named `key`, pre-filled with `value`, with
/// an error line when `conflict` holds.
pub fn edit_fragment(key: &str, value: &str, conflict: bool) -> (r: String)
    ensures
        r@ == edit_markup(key@, value@, conflict),
{
    let mut out = String::new();
    out.append("<form hx-put=\"");
    push_display_path(&mut out, key);
    out.append(
        "\" hx-target=\"this\" hx-swap=\"outerHTML\"><div><label>Name</label><input type=\"text\" name=\"trackerName\" value=\"",
    );
    push_escaped(&mut out, value);
    out.append("\"></div>");
    if conflict {
        out.append("<div class=\"error\">That name is already taken</div>");
    }
    out.append("<button class=\"btn\">Submit</button><button class=\"btn\" hx-get=\"");
    push_display_path(&mut out, key);
    out.append("\">Cancel</button></form>");
    assert(out@ =~= edit_markup(key@, value@, conflict));
    out
}

/// The fragment shown when no tracker matches.
pub fn not_found_fragment() -> (r: String)
    ensures
        r@ == not_found_markup(),
{
    String::from_str("<h1>Not Found</h1>")
}

/// The fragment shown when the store could not be reached.
pub fn server_error_fragment() -> (r: String)
    ensures
        r@ == server_error_markup(),
{
    String::from_str("<h1>Server Error</h1>")
}

/// Renders a tracker, or its absence, in the requested mode.
pub fn render(found: Option<&HikeTrackerModel>, mode: Mode) -> (r: String)
    ensures
        r@ == fragment(found_view(found), mode),
        found is None ==> r@ == not_found_markup(),
{
    match found {
        None => not_found_fragment(),
        Some(t) => match mode {
            Mode::Display => display_fragment(t),
            Mode::Edit => edit_fragment(t.name.as_str(), t.name.as_str(), false),
        },
    }
}

/// Renders the answer to a submitted rename of the tracker named `key` to
/// `submitted`: the renamed tracker's view on success, the form with the
/// submitted value kept and an error line on a conflict.
pub fn after_submit(key: &str, submitted: &str, outcome: Result<&HikeTrackerModel, StoreError>) -> (r:
    String)
    ensures
        r@ == submit_markup(
            key@,
            submitted@,
            match outcome {
                Ok(t) => Ok(t@),
                Err(e) => Err(e),
            },
        ),
{
    match outcome {
        Ok(t) => display_fragment(t),
        Err(StoreError::Conflict) => edit_fragment(key, submitted, true),
        Err(StoreError::NotFound) => not_found_fragment(),
        Err(StoreError::StoreUnavailable) => server_error_fragment(),
    }
}

pub open spec fn page_head() -> Seq<char> {
    "<!DOCTYPE html><html lang=\"en\"><head><meta charset=\"utf-8\"><meta name=\"viewport\" content=\"width=device-width, initial-scale=1\"><title>TEST</title><script src=\"https://unpkg.com/htmx.org@1.9.11\" integrity=\"sha384-0gxUXCCR8yv9FM2b+U3FDbsKthCI66oH5IA9fHppQq9DDMHuMauqq1ZHBpJxQ0J0\" crossorigin=\"anonymous\"></script></head><body><h1>The Body Mint</h1><div id=\"the-one\">Div</div>"@
}

pub open spec fn page_tail() -> Seq<char> {
    "</body></html>"@
}

/// A full page around a fragment.
pub fn boiler(body: &str) -> (r: String)
    ensures
        r@ == page_head() + body@ + page_tail(),
{
    let mut out = String::from_str(
        "<!DOCTYPE html><html lang=\"en\"><head><meta charset=\"utf-8\"><meta name=\"viewport\" content=\"width=device-width, initial-scale=1\"><title>TEST</title><script src=\"https://unpkg.com/htmx.org@1.9.11\" integrity=\"sha384-0gxUXCCR8yv9FM2b+U3FDbsKthCI66oH5IA9fHppQq9DDMHuMauqq1ZHBpJxQ0J0\" crossorigin=\"anonymous\"></script></head><body><h1>The Body Mint</h1><div id=\"the-one\">Div</div>",
    );
    out.append(body);
    out.append("</body></html>");
    out
}

/// The front page: a full page around the read-only view of the tracker
/// found, or the not-found fragment.
pub fn root(found: Option<&HikeTrackerModel>) -> (r: String)
    ensures
        r@ == page_head() + fragment(found_view(found), Mode::Display) + page_tail(),
{
    let body = render(found, Mode::Display);
    boiler(body.as_str())
}

pub open spec fn peak_item(name: Seq<char>, elevation: u16) -> Seq<char> {
    "<li>name: "@ + escaped(name) + ", elevation: "@ + decimal(elevation as nat) + "</li>"@
}

/// The peaks as list items, in their order.
pub open spec fn peak_items(ps: Seq<HikePeak>) -> Seq<char>
    decreases ps.len(),
{
    if ps.len() == 0 {
        Seq::empty()
    } else {
        peak_items(ps.drop_last()) + peak_item(ps.last().name@, ps.last().elevation)
    }
}

/// The static list of peaks as list items.
pub fn hike_peak_list(peaks: &Vec<HikePeak>) -> (r: String)
    ensures
        r@ == peak_items(peaks@),
{
    let mut out = String::new();
    let mut i: usize = 0;
    while i < peaks.len()
        invariant
            i <= peaks@.len(),
            out@ == peak_items(peaks@.subrange(0, i as int)),
        decreases peaks@.len() - i,
    {
        let p = &peaks[i];
        out.append("<li>name: ");
        push_escaped(&mut out, p.name.as_str());
        out.append(", elevation: ");
        push_decimal(&mut out, p.elevation as u64);
        out.append("</li>");
        proof {
            assert(peaks@.subrange(0, i + 1).drop_last() =~= peaks@.subrange(0, i as int));
            assert(out@ =~= peak_items(peaks@.subrange(0, i + 1)));
        }
        i = i + 1;
    }
    assert(peaks@.subrange(0, peaks@.len() as int) =~= peaks@);
    out
}

/// The fragment that a submitted rename of the tracker named `key` to `n`
/// at `now` answers, given the documents before it.
pub open spec fn submit_response(docs: Seq<TrackerView>, key: Seq<char>, n: Seq<char>, now: i64) -> Seq<
    char,
> {
    match lookup_name(docs, key) {
        None => not_found_markup(),
        Some(t) => submit_markup(
            key,
            n,
            match rename_outcome(docs, t.id, n) {
                Ok(_) => Ok(renamed(docs, t.id, n, now)[index_of_id(docs, t.id)]),
                Err(e) => Err(e),
            },
        ),
    }
}

/// The documents after a submitted rename of the tracker named `key`.
pub open spec fn after_submit_docs(docs: Seq<TrackerView>, key: Seq<char>, n: Seq<char>, now: i64) -> Seq<
    TrackerView,
> {
    match lookup_name(docs, key) {
        None => docs,
        Some(t) => renamed(docs, t.id, n, now),
    }
}

impl TrackerStore {
    /// Answers a request for the tracker named `key` in `mode`.
    pub fn view_tracker(&self, key: &str, mode: Mode) -> (r: String)
        requires
            docs_wf(self@),
        ensures
            r@ == fragment(lookup_name(self@, key@), mode),
    {
        render(self.find_by_name(key), mode)
    }

    /// Answers a submitted rename of the tracker named `key` to `new_name`
    /// at `now`: the store renames it, or is left as it was on a conflict or
    /// an unknown key, and the answer is the matching fragment.
    pub fn submit(&mut self, key: &str, new_name: String, now: i64) -> (r: String)
        requires
            docs_wf(old(self)@),
        ensures
            docs_wf(final(self)@),
            final(self)@ == after_submit_docs(old(self)@, key@, new_name@, now),
            r@ == submit_response(old(self)@, key@, new_name@, now),
    {
        let id = match self.find_by_name(key) {
            None => {
                return not_found_fragment();
            },
            Some(t) => t._id,
        };
        let submitted = new_name.clone();
        let ghost before = self@;
        let outcome = self.rename_at(&id, new_name, now);
        match outcome {
            Ok(()) => {
                let ghost i = index_of_id(before, id@);
                proof {
                    assert(before[i].id == id@);
                    assert(self@[i].id == id@);
                    let k = index_of_id(self@, id@);
                    assert(self@[k].id == id@);
                }
                let t = self.find_by_id(&id);
                match t {
                    Some(t) => after_submit(key, submitted.as_str(), Ok(t)),
                    None => not_found_fragment(),
                }
            },
            Err(e) => after_submit(key, submitted.as_str(), Err(e)),
        }
    }
}

/// Whatever the mode, a key that no tracker holds is answered with the
/// not-found fragment.
pub proof fn lemma_unknown_key_not_found(docs: Seq<TrackerView>, key: Seq<char>, mode: Mode)
    requires
        !has_name(docs, key),
    ensures
        fragment(lookup_name(docs, key), mode) == not_found_markup(),
{
}

/// Cancelling an edit is a round trip: the edit form of the tracker found
/// under `key` points its cancel control at the display path of that
/// tracker's name, and displaying that name renders exactly what displaying
/// `key` does.
pub proof fn lemma_cancel_round_trip(docs: Seq<TrackerView>, key: Seq<char>)
    requires
        docs_wf(docs),
    ensures
        lookup_name(docs, key) matches Some(t) ==> {
            &&& fragment(lookup_name(docs, key), Mode::Edit) == edit_markup(t.name, t.name, false)
            &&& fragment(lookup_name(docs, t.name), Mode::Display) == fragment(
                lookup_name(docs, key),
                Mode::Display,
            )
        },
{
    if has_name(docs, key) {
        let i = crate::store::index_of_name(docs, key);
        assert(docs[i].name == key);
    }
}

} // verus!
