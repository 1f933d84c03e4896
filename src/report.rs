//! Bookkeeping around the renderer: the files it reads and leaves behind,
//! and the summary of which inputs succeeded.
use vstd::prelude::*;
use crate::text::{joined, string_views};

verus! {

/// The extensions of the by-product files that the renderer leaves beside its
/// output, removed after a successful render.
pub open spec fn byproduct_extensions() -> Seq<Seq<char>> {
    seq!["aux"@, "log"@, "nav"@, "out"@, "snm"@, "toc"@]
}

/// The closing report of a run: a heading, then a line naming the succeeded
/// inputs if there are any, then a line naming the failed ones if there are any.
pub open spec fn report_text(succeeded: Seq<Seq<char>>, failed: Seq<Seq<char>>) -> Seq<Seq<char>> {
    let ok_line = if succeeded.len() > 0 {
        seq!["Successfully processed and compiled: "@ + joined(succeeded, ", "@)]
    } else {
        Seq::empty()
    };
    let failed_line = if failed.len() > 0 {
        seq!["Failed to process or compile: "@ + joined(failed, ", "@)]
    } else {
        Seq::empty()
    };
    seq!["Processing Summary:"@] + ok_line + failed_line
}

/// The name of the document file written for input `stem`: `<stem>.tex`.
pub fn tex_file_name(stem: &str) -> (r: String)
    ensures
        r@ == stem@ + ".tex"@,
{
    let mut r = String::from_str(stem);
    r.append(".tex");
    r
}

/// The names of the by-product files for input `stem`: `<stem>.<ext>` for
/// each extension in `byproduct_extensions`, in that order.
pub fn byproduct_file_names(stem: &str) -> (r: Vec<String>)
    ensures
        r@.len() == byproduct_extensions().len(),
        forall|k: int|
            0 <= k < r@.len() ==> #[trigger] r@[k]@ == stem@ + "."@ + byproduct_extensions()[k],
{
    let extensions: [&str; 6] = ["aux", "log", "nav", "out", "snm", "toc"];
    let mut r: Vec<String> = Vec::new();
    let mut k: usize = 0;
    while k < 6
        invariant
            k <= 6,
            extensions@ == seq!["aux", "log", "nav", "out", "snm", "toc"],
            r@.len() == k,
            forall|j: int|
                0 <= j < k ==> #[trigger] r@[j]@ == stem@ + "."@ + byproduct_extensions()[j],
        decreases 6 - k,
    {
        let mut name = String::from_str(stem);
        name.append(".");
        name.append(extensions[k]);
        r.push(name);
        k = k + 1;
    }
    r
}

/// Joins `names` with `sep` between each two.
pub fn join_names(names: &Vec<String>, sep: &str) -> (r: String)
    ensures
        r@ == joined(string_views(names@), sep@),
{
    let ghost all = string_views(names@);
    let mut r = String::new();
    let mut k: usize = 0;
    assert(all.take(0) =~= Seq::<Seq<char>>::empty());
    while k < names.len()
        invariant
            k <= names@.len(),
            all == string_views(names@),
            r@ == joined(all.take(k as int), sep@),
        decreases names@.len() - k,
    {
        assert(all.take(k + 1).drop_last() =~= all.take(k as int));
        if k > 0 {
            r.append(sep);
        } else {
            assert(r@ =~= Seq::<char>::empty());
        }
        r.append(names[k].as_str());
        assert(r@ =~= joined(all.take(k + 1), sep@));
        k = k + 1;
    }
    assert(all.take(k as int) =~= all);
    r
}

/// The outcome of a run: the inputs, by stem, whose document was built and
/// rendered, and those that failed, each in the order they were processed.
pub struct Summary {
    pub succeeded: Vec<String>,
    pub failed: Vec<String>,
}

impl Summary {
    /// A summary of no inputs.
    pub fn new() -> (r: Summary)
        ensures
            r.succeeded@.len() == 0,
            r.failed@.len() == 0,
    {
        Summary { succeeded: Vec::new(), failed: Vec::new() }
    }

    /// Records the outcome for input `stem`: appended to the succeeded inputs
    /// when `ok`, to the failed ones otherwise.
    pub fn record(&mut self, stem: String, ok: bool)
        ensures
            ok ==> final(self).succeeded@ == old(self).succeeded@.push(stem),
            ok ==> final(self).failed@ == old(self).failed@,
            !ok ==> final(self).failed@ == old(self).failed@.push(stem),
            !ok ==> final(self).succeeded@ == old(self).succeeded@,
    {
        if ok {
            self.succeeded.push(stem);
        } else {
            self.failed.push(stem);
        }
    }

    /// The closing report (see `report_text`).
    pub fn report_lines(&self) -> (r: Vec<String>)
        ensures
            string_views(r@) == report_text(string_views(self.succeeded@), string_views(self.failed@)),
    {
        let mut r: Vec<String> = Vec::new();
        r.push(String::from_str("Processing Summary:"));
        if self.succeeded.len() > 0 {
            let mut line = String::from_str("Successfully processed and compiled: ");
            let names = join_names(&self.succeeded, ", ");
            line.append(names.as_str());
            r.push(line);
        }
        if self.failed.len() > 0 {
            let mut line = String::from_str("Failed to process or compile: ");
            let names = join_names(&self.failed, ", ");
            line.append(names.as_str());
            r.push(line);
        }
        assert(string_views(r@) =~= report_text(
            string_views(self.succeeded@),
            string_views(self.failed@),
        ));
        r
    }
}

} // verus!
