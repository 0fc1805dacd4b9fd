//! Builds the static browser-preview page: one block per matched family,
//! each asking the browser to draw the query character in that family.

use crate::family::{Family, FilteredFamilies};
use crate::one_char::OneChar;
use crate::server::SingleThread;
use crate::text::{push_char, push_str};
use vstd::prelude::*;

verus! {

/// The preview block for one family: the character drawn in the family,
/// with the family's name beside it.
pub open spec fn spec_preview_block(c: char, family: Seq<char>) -> Seq<char> {
    "<div class=\"preview\" style=\"font-family: '"@ + family
        + "'\"><span class=\"glyph\">"@ + seq![c] + "</span><span class=\"name\">"@ + family
        + "</span></div>\n"@
}

/// The blocks of all families, in order.
pub open spec fn spec_blocks(c: char, families: Seq<String>) -> Seq<char>
    decreases families.len(),
{
    if families.len() == 0 {
        Seq::empty()
    } else {
        spec_blocks(c, families.drop_last()) + spec_preview_block(c, families.last()@)
    }
}

/// The whole page around the blocks.
pub open spec fn spec_page(c: char, families: Seq<String>) -> Seq<char> {
    "<!DOCTYPE html>\n<html><head><meta charset=\"utf-8\"></head><body>\n"@ + spec_blocks(
        c,
        families,
    ) + "</body></html>\n"@
}

/// Collects the family names the page will preview.
pub struct Builder {
    families: Vec<String>,
}

impl Builder {
    /// The family names collected so far.
    pub closed spec fn spec_families(self) -> Seq<String> {
        self.families@
    }

    pub fn new() -> (b: Builder)
        ensures
            b.spec_families().len() == 0,
    {
        Builder { families: Vec::new() }
    }

    /// Note one more family for the page.
    pub fn add_family(&mut self, family: &Family)
        ensures
            final(self).spec_families() == old(self).spec_families().push(family.name),
    {
        self.families.push(family.name.clone());
        proof {
            assert(self.families@ =~= old(self).families@.push(family.name));
        }
    }

    /// Collect every matched family, in catalog order.
    pub fn from_matched(filtered: &FilteredFamilies) -> (b: Builder)
        requires
            filtered.wf(),
        ensures
            exists|idxs: Seq<usize>|
                {
                    &&& forall|a: int, d: int| 0 <= a < d < idxs.len() ==> idxs[a] < idxs[d]
                    &&& forall|x: usize|
                        (#[trigger] idxs.contains(x)) <==> filtered.spec_matched().contains(x)
                    &&& b.spec_families().len() == #[trigger] idxs.len()
                    &&& forall|t: int|
                        0 <= t < idxs.len() ==> (#[trigger] b.spec_families()[t])
                            == filtered.spec_data()[idxs[t] as int].name
                },
    {
        let idxs: Vec<usize> = filtered.matched_indices();
        let data = filtered.data();
        let mut b = Builder::new();
        let n: usize = idxs.len();
        let mut t: usize = 0;
        while t < n
            invariant
                filtered.wf(),
                n == idxs@.len(),
                t <= n,
                data@ == filtered.spec_data(),
                forall|x: usize|
                    (#[trigger] idxs@.contains(x)) <==> filtered.spec_matched().contains(x),
                forall|a: int, d: int| 0 <= a < d < n ==> idxs@[a] < idxs@[d],
                b.spec_families().len() == t,
                forall|u: int|
                    0 <= u < t ==> (#[trigger] b.spec_families()[u]) == filtered.spec_data()[
                        idxs@[u] as int
                    ].name,
            decreases n - t,
        {
            let fam: usize = idxs[t];
            proof {
                filtered.lemma_matched_equals_rescan();
                filtered.lemma_wf_dimensions();
                assert(idxs@.contains(fam));
                assert(filtered.spec_matched().contains(fam));
                assert(fam < filtered.spec_names().len());
            }
            b.add_family(&data[fam]);
            t = t + 1;
        }
        proof {
            assert(forall|x: usize|
                (#[trigger] idxs@.contains(x)) <==> filtered.spec_matched().contains(x));
        }
        b
    }

    /// Render the page for the query character.
    pub fn build_html(self, c: OneChar) -> (r: String)
        ensures
            r@ == spec_page(c.0, self.spec_families()),
    {
        let mut s = String::new();
        push_str(&mut s, "<!DOCTYPE html>\n<html><head><meta charset=\"utf-8\"></head><body>\n");
        let ghost head = s@;
        let n: usize = self.families.len();
        let mut i: usize = 0;
        while i < n
            invariant
                n == self.families@.len(),
                i <= n,
                head == "<!DOCTYPE html>\n<html><head><meta charset=\"utf-8\"></head><body>\n"@,
                s@ == head + spec_blocks(c.0, self.families@.subrange(0, i as int)),
            decreases n - i,
        {
            push_str(&mut s, "<div class=\"preview\" style=\"font-family: '");
            push_str(&mut s, self.families[i].as_str());
            push_str(&mut s, "'\"><span class=\"glyph\">");
            push_char(&mut s, c.0);
            push_str(&mut s, "</span><span class=\"name\">");
            push_str(&mut s, self.families[i].as_str());
            push_str(&mut s, "</span></div>\n");
            proof {
                let pre = self.families@.subrange(0, i as int);
                let post = self.families@.subrange(0, i + 1);
                assert(post.drop_last() =~= pre);
                assert(post.last() == self.families@[i as int]);
                assert(seq![c.0] =~= Seq::<char>::empty().push(c.0));
                assert(s@ =~= head + spec_blocks(c.0, post));
            }
            i = i + 1;
        }
        push_str(&mut s, "</body></html>\n");
        proof {
            assert(self.families@.subrange(0, n as int) =~= self.families@);
            assert(s@ =~= spec_page(c.0, self.families@));
        }
        s
    }

    /// Render the page and wrap it in the server that will hand it out.
    pub fn build_for(self, c: OneChar) -> (r: SingleThread)
        ensures
            r.spec_html() == spec_page(c.0, self.spec_families()),
    {
        let html = self.build_html(c);
        SingleThread::new(html)
    }
}

} // verus!
