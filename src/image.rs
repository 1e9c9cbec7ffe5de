//! Image records, their resolution from the image-info query, and the
//! resumable download of their bytes.
use vstd::prelude::*;
use crate::raw::RawItem;
use vstd::string::StringExecFns;
use crate::text::{
    equals, lemma_seq_lt_total, lemma_seq_lt_transitive, owned, seq_le, seq_lt, str_lt,
};

verus! {

/// A downloaded image.
#[derive(Debug, PartialEq, Eq)]
pub struct Image {
    pub name: String,
    pub data: Vec<u8>,
    pub width: i32,
    pub height: i32,
}

/// A borrowed view of an image.
#[derive(Debug)]
pub struct ImageRef<'a> {
    pub name: &'a str,
    pub data: &'a [u8],
    pub width: i32,
    pub height: i32,
}

/// Where an image is hosted, and its size in pixels.
#[derive(Debug, PartialEq, Eq)]
pub struct ImageLocation {
    pub name: String,
    pub url: String,
    pub width: i32,
    pub height: i32,
}

/// One page of the image-info query.
#[derive(Debug)]
pub struct WikiImageInfoPage {
    pub title: String,
    pub pageid: Option<i32>,
    pub ns: i32,
    pub imagerepository: Option<String>,
    pub imageinfo: Vec<WikiImageInfo>,
}

/// The information the image-info query gives on one revision of a file.
#[derive(Debug)]
pub struct WikiImageInfo {
    pub url: String,
    pub descriptionurl: String,
    pub descriptionshorturl: String,
    pub width: i32,
    pub height: i32,
    pub size: i32,
}

/// How many file names one image-info query asks for.
pub const IMAGE_BATCH_SIZE: usize = 50;

impl Image {
    pub fn as_ref(&self) -> (r: ImageRef<'_>)
        ensures
            r.name@ == self.name@,
            r.data@ == self.data@,
            r.width == self.width,
            r.height == self.height,
    {
        ImageRef {
            name: self.name.as_str(),
            data: self.data.as_slice(),
            width: self.width,
            height: self.height,
        }
    }
}

impl ImageLocation {
    pub fn copy(&self) -> (r: ImageLocation)
        ensures
            r == *self,
    {
        ImageLocation {
            name: self.name.clone(),
            url: self.url.clone(),
            width: self.width,
            height: self.height,
        }
    }

    /// The location a page of the image-info query describes: its title
    /// without the `File:` prefix, and its first revision's URL and size.
    /// `None` when the page has no revision or its title lacks the prefix.
    pub fn from_page(page: &WikiImageInfoPage) -> (r: Option<ImageLocation>)
        ensures
            match r {
                Some(l) => page.imageinfo@.len() > 0 && "File:"@.is_prefix_of(page.title@)
                    && l.name@ == page.title@.skip(5) && l.url == page.imageinfo@[0].url
                    && l.width == page.imageinfo@[0].width && l.height
                    == page.imageinfo@[0].height,
                None => page.imageinfo@.len() == 0 || !"File:"@.is_prefix_of(page.title@),
            },
    {
        proof {
            reveal_strlit("File:");
        }
        if page.imageinfo.len() == 0 {
            return None;
        }
        let t = page.title.as_str();
        let n = t.unicode_len();
        if n < 5 || !equals(t.substring_char(0, 5), "File:") {
            proof {
                if n >= 5 {
                    assert(t@.subrange(0, 5) == t@.take(5));
                }
            }
            return None;
        }
        proof {
            assert(t@.subrange(0, 5) =~= t@.take(5));
        }
        let info = &page.imageinfo[0];
        let name = owned(t.substring_char(5, n));
        proof {
            assert(name@ =~= page.title@.skip(5));
        }
        Some(ImageLocation { name, url: info.url.clone(), width: info.width, height: info.height })
    }
}

pub open spec fn string_views(v: Seq<String>) -> Seq<Seq<char>> {
    v.map_values(|x: String| x@)
}

pub open spec fn location_names(ls: Seq<ImageLocation>) -> Seq<Seq<char>> {
    ls.map_values(|l: ImageLocation| l.name@)
}

pub open spec fn image_names(is: Seq<Image>) -> Seq<Seq<char>> {
    is.map_values(|i: Image| i.name@)
}

/// The locations whose names are not in `have`, in their order.
pub open spec fn missing_spec(ls: Seq<ImageLocation>, have: Seq<Seq<char>>) -> Seq<ImageLocation>
    decreases ls.len(),
{
    if ls.len() == 0 {
        Seq::empty()
    } else {
        let prev = missing_spec(ls.drop_last(), have);
        if have.contains(ls.last().name@) {
            prev
        } else {
            prev.push(ls.last())
        }
    }
}

/// Whether some string of `v` holds the characters `s`.
fn contains_name(v: &Vec<String>, s: &str) -> (r: bool)
    ensures
        r == string_views(v@).contains(s@),
{
    let mut i: usize = 0;
    while i < v.len()
        invariant
            i <= v.len(),
            forall|j: int| 0 <= j < i ==> (#[trigger] v@[j])@ != s@,
        decreases v.len() - i,
    {
        if equals(v[i].as_str(), s) {
            proof {
                assert(string_views(v@)[i as int] == s@);
            }
            return true;
        }
        i = i + 1;
    }
    proof {
        if string_views(v@).contains(s@) {
            let j = choose|j: int|
                0 <= j < v@.len() && #[trigger] string_views(v@)[j] == s@;
            assert(v@[j]@ == s@);
        }
    }
    false
}

/// The names of the given images.
pub fn names_of_images(images: &Vec<Image>) -> (r: Vec<String>)
    ensures
        string_views(r@) == image_names(images@),
{
    let mut r: Vec<String> = Vec::new();
    let mut i: usize = 0;
    while i < images.len()
        invariant
            i <= images.len(),
            r@.len() == i,
            string_views(r@) == image_names(images@.take(i as int)),
        decreases images.len() - i,
    {
        let ghost prev = r@;
        r.push(images[i].name.clone());
        proof {
            assert forall|j: int| 0 <= j < i implies #[trigger] string_views(r@)[j]
                == image_names(images@.take(i + 1))[j] by {
                assert(string_views(prev)[j] == image_names(images@.take(i as int))[j]);
            }
            assert(string_views(r@) =~= image_names(images@.take(i + 1)));
        }
        i = i + 1;
    }
    proof {
        assert(images@.take(images.len() as int) =~= images@);
    }
    r
}

/// The locations not yet downloaded: those whose name no image in
/// `images` has, in their order.
pub fn missing_locations(locations: &Vec<ImageLocation>, images: &Vec<Image>) -> (r: Vec<
    ImageLocation,
>)
    ensures
        r@ == missing_spec(locations@, image_names(images@)),
{
    let have = names_of_images(images);
    let mut r: Vec<ImageLocation> = Vec::new();
    let mut i: usize = 0;
    while i < locations.len()
        invariant
            i <= locations.len(),
            string_views(have@) == image_names(images@),
            r@ == missing_spec(locations@.take(i as int), image_names(images@)),
        decreases locations.len() - i,
    {
        proof {
            assert(locations@.take(i + 1).drop_last() =~= locations@.take(i as int));
        }
        let l = &locations[i];
        if !contains_name(&have, l.name.as_str()) {
            r.push(l.copy());
        }
        i = i + 1;
    }
    proof {
        assert(locations@.take(locations.len() as int) =~= locations@);
    }
    r
}


proof fn lemma_push_contains<A>(s: Seq<A>, x: A, n: A)
    ensures
        s.push(x).contains(n) <==> s.contains(n) || n == x,
{
    if s.push(x).contains(n) {
        let i = choose|i: int| 0 <= i < s.len() + 1 && #[trigger] s.push(x)[i] == n;
        if i < s.len() {
            assert(s[i] == n);
        }
    }
    if s.contains(n) {
        let i = choose|i: int| 0 <= i < s.len() && #[trigger] s[i] == n;
        assert(s.push(x)[i] == n);
    }
    if n == x {
        assert(s.push(x)[s.len() as int] == n);
    }
}

/// The names of the locations still to fetch are the names of `ls` that
/// `have` lacks.
pub proof fn lemma_missing_names(ls: Seq<ImageLocation>, have: Seq<Seq<char>>, n: Seq<char>)
    ensures
        location_names(missing_spec(ls, have)).contains(n) <==> location_names(ls).contains(n)
            && !have.contains(n),
    decreases ls.len(),
{
    if ls.len() > 0 {
        let init = ls.drop_last();
        let last = ls.last();
        lemma_missing_names(init, have, n);
        let prev = missing_spec(init, have);
        assert(location_names(ls) =~= location_names(init).push(last.name@));
        lemma_push_contains(location_names(init), last.name@, n);
        if !have.contains(last.name@) {
            assert(location_names(prev.push(last)) =~= location_names(prev).push(last.name@));
            lemma_push_contains(location_names(prev), last.name@, n);
        }
    } else {
        assert(location_names(ls) =~= Seq::<Seq<char>>::empty());
        assert(location_names(missing_spec(ls, have)) =~= Seq::<Seq<char>>::empty());
    }
}

proof fn lemma_missing_no_duplicates(ls: Seq<ImageLocation>, have: Seq<Seq<char>>)
    requires
        location_names(ls).no_duplicates(),
    ensures
        location_names(missing_spec(ls, have)).no_duplicates(),
    decreases ls.len(),
{
    if ls.len() > 0 {
        let init = ls.drop_last();
        assert(location_names(ls) =~= location_names(init).push(ls.last().name@));
        assert(location_names(init).no_duplicates()) by {
            assert forall|i: int, j: int|
                0 <= i < init.len() && 0 <= j < init.len() && i != j implies #[trigger] location_names(
                init,
            )[i] != #[trigger] location_names(init)[j] by {
                assert(location_names(ls)[i] != location_names(ls)[j]);
            }
        }
        lemma_missing_no_duplicates(init, have);
        let prev = missing_spec(init, have);
        if !have.contains(ls.last().name@) {
            let last = ls.last().name@;
            assert(!location_names(init).contains(last)) by {
                if location_names(init).contains(last) {
                    let i = choose|i: int|
                        0 <= i < init.len() && #[trigger] location_names(init)[i] == last;
                    assert(location_names(ls)[i] == location_names(ls)[ls.len() - 1]);
                }
            }
            lemma_missing_names(init, have, last);
            let np = location_names(prev.push(ls.last()));
            assert(np =~= location_names(prev).push(last));
            assert forall|i: int, j: int|
                0 <= i < np.len() && 0 <= j < np.len() && i != j implies #[trigger] np[i]
                != #[trigger] np[j] by {
                if i == np.len() - 1 {
                    assert(location_names(prev)[j] == np[j]);
                } else if j == np.len() - 1 {
                    assert(location_names(prev)[i] == np[i]);
                }
            }
        }
    }
}

/// A download resumed from stored images and a location list.
///
/// `images` starts as the stored images and grows by one image per fetched
/// location; `pending` holds the locations no stored image covers, `next`
/// the first of them not yet fetched. After a failed fetch `stopped` is set
/// and nothing more is asked for.
pub struct ImageDownload {
    pub images: Vec<Image>,
    pub pending: Vec<ImageLocation>,
    pub next: usize,
    pub stopped: bool,
    pub stored: Ghost<Seq<Image>>,
}

impl ImageDownload {
    pub open spec fn wf(&self) -> bool {
        let s = self.stored@;
        &&& self.next <= self.pending@.len()
        &&& self.images@.len() == s.len() + self.next
        &&& self.images@.take(s.len() as int) == s
        &&& forall|k: int|
            0 <= k < self.next ==> {
                let img = #[trigger] self.images@[s.len() + k];
                let loc = self.pending@[k];
                img.name == loc.name && img.width == loc.width && img.height == loc.height
            }
    }

    /// Starts from the stored images and the full location list: the
    /// locations to fetch are those whose names no stored image has.
    pub fn new(stored: Vec<Image>, locations: &Vec<ImageLocation>) -> (r: ImageDownload)
        ensures
            r.wf(),
            r.stored@ == stored@,
            r.images@ == stored@,
            r.pending@ == missing_spec(locations@, image_names(stored@)),
            r.next == 0,
            !r.stopped,
    {
        let pending = missing_locations(locations, &stored);
        let ghost s = stored@;
        proof {
            assert(stored@.take(s.len() as int) =~= s);
        }
        ImageDownload { images: stored, pending, next: 0, stopped: false, stored: Ghost(s) }
    }

    /// The location to fetch next: none once all are fetched or one failed.
    pub fn next_location(&self) -> (r: Option<&ImageLocation>)
        requires
            self.wf(),
        ensures
            match r {
                Some(l) => !self.stopped && self.next < self.pending@.len() && *l
                    == self.pending@[self.next as int],
                None => self.stopped || self.next == self.pending@.len(),
            },
    {
        if self.stopped || self.next >= self.pending.len() {
            None
        } else {
            Some(&self.pending[self.next])
        }
    }

    /// Takes the outcome of fetching the next location: its bytes are kept
    /// as an image; a failure stops the download, keeping what came before.
    pub fn receive(&mut self, data: Option<Vec<u8>>)
        requires
            old(self).wf(),
            !old(self).stopped,
            old(self).next < old(self).pending@.len(),
        ensures
            final(self).wf(),
            final(self).stored == old(self).stored,
            final(self).pending == old(self).pending,
            match data {
                Some(d) => {
                    let loc = old(self).pending@[old(self).next as int];
                    &&& final(self).images@ == old(self).images@.push(
                        Image { name: loc.name, data: d, width: loc.width, height: loc.height },
                    )
                    &&& final(self).next == old(self).next + 1
                    &&& !final(self).stopped
                },
                None => {
                    &&& final(self).images == old(self).images
                    &&& final(self).next == old(self).next
                    &&& final(self).stopped
                },
            },
    {
        match data {
            Some(d) => {
                let ghost s = self.stored@;
                let ghost before = self.images@;
                let loc = &self.pending[self.next];
                let img = Image {
                    name: loc.name.clone(),
                    data: d,
                    width: loc.width,
                    height: loc.height,
                };
                let n = self.pending.len();
                self.images.push(img);
                assert(self.next < n);
                self.next = self.next + 1;
                proof {
                    assert(self.images@.take(s.len() as int) =~= before.take(s.len() as int));
                    assert forall|k: int| 0 <= k < self.next implies {
                        let img = #[trigger] self.images@[s.len() + k];
                        let loc = self.pending@[k];
                        img.name == loc.name && img.width == loc.width && img.height
                            == loc.height
                    } by {
                        if k < self.next - 1 {
                            assert(self.images@[s.len() + k] == before[s.len() + k]);
                        }
                    }
                }
            },
            None => {
                self.stopped = true;
            },
        }
    }

    /// Whether every pending location has been fetched.
    pub fn is_complete(&self) -> (r: bool)
        ensures
            r == (self.next == self.pending@.len()),
    {
        self.next == self.pending.len()
    }

    /// The images to store: the stored ones, then those fetched in order.
    pub fn finish(self) -> (r: Vec<Image>)
        ensures
            r@ == self.images@,
    {
        self.images
    }
}

/// A resumed download fetches exactly the locations whose names no stored
/// image has. When every one of them has been fetched, the images name
/// each location exactly once.
pub proof fn lemma_resume_complete(
    locations: Seq<ImageLocation>,
    stored: Seq<Image>,
    d: ImageDownload,
)
    requires
        location_names(locations).no_duplicates(),
        image_names(stored).no_duplicates(),
        forall|i: int|
            0 <= i < stored.len() ==> location_names(locations).contains(
                #[trigger] stored[i].name@,
            ),
        d.wf(),
        d.stored@ == stored,
        d.pending@ == missing_spec(locations, image_names(stored)),
        d.next == d.pending@.len(),
    ensures
        forall|n: Seq<char>|
            location_names(d.pending@).contains(n) <==> location_names(locations).contains(n)
                && !image_names(stored).contains(n),
        image_names(d.images@).to_set() == location_names(locations).to_set(),
        image_names(d.images@).no_duplicates(),
{
    let have = image_names(stored);
    let miss = location_names(d.pending@);
    let all = image_names(d.images@);
    assert forall|n: Seq<char>|
        location_names(d.pending@).contains(n) <==> location_names(locations).contains(n)
            && !image_names(stored).contains(n) by {
        lemma_missing_names(locations, have, n);
    }
    lemma_missing_no_duplicates(locations, have);
    // the images are the stored ones followed by one per pending location
    assert(all =~= have + miss) by {
        assert forall|i: int| 0 <= i < all.len() implies #[trigger] all[i] == (have + miss)[i] by {
            if i < stored.len() {
                assert(d.images@.take(stored.len() as int)[i] == stored[i]);
            } else {
                let k = i - stored.len();
                assert(d.images@[stored.len() + k].name == d.pending@[k].name);
            }
        }
    }
    assert forall|n: Seq<char>| all.contains(n) <==> location_names(locations).contains(n) by {
        lemma_missing_names(locations, have, n);
        if all.contains(n) {
            let i = choose|i: int| 0 <= i < all.len() && #[trigger] all[i] == n;
            if i < have.len() {
                assert(have[i] == n);
                assert(stored[i].name@ == n);
            } else {
                assert(miss[i - have.len()] == n);
                assert(miss.contains(n));
            }
        }
        if location_names(locations).contains(n) {
            if have.contains(n) {
                let i = choose|i: int| 0 <= i < have.len() && #[trigger] have[i] == n;
                assert(all[i] == n);
            } else {
                assert(miss.contains(n));
                let i = choose|i: int| 0 <= i < miss.len() && #[trigger] miss[i] == n;
                assert(all[have.len() + i] == n);
            }
        }
    }
    assert(all.to_set() =~= location_names(locations).to_set());
    assert forall|i: int, j: int|
        0 <= i < all.len() && 0 <= j < all.len() && i != j implies #[trigger] all[i]
        != #[trigger] all[j] by {
        if i < have.len() && j < have.len() {
        } else if i >= have.len() && j >= have.len() {
            assert(miss[i - have.len()] != miss[j - have.len()]);
        } else if i < have.len() {
            assert(have.contains(all[i]));
            assert(miss[j - have.len()] == all[j]);
            assert(miss.contains(all[j]));
        } else {
            assert(have.contains(all[j]));
            assert(miss[i - have.len()] == all[i]);
            assert(miss.contains(all[i]));
        }
    }
}


/// The image files the records name that no location covers yet, in
/// record order.
pub open spec fn pending_files_spec(raws: Seq<RawItem>, have: Seq<Seq<char>>) -> Seq<Seq<char>>
    decreases raws.len(),
{
    if raws.len() == 0 {
        Seq::empty()
    } else {
        let prev = pending_files_spec(raws.drop_last(), have);
        match raws.last().imagefile {
            Some(f) => if have.contains(f@) {
                prev
            } else {
                prev.push(f@)
            },
            None => prev,
        }
    }
}

/// The names of the given locations.
pub fn names_of_locations(locations: &Vec<ImageLocation>) -> (r: Vec<String>)
    ensures
        string_views(r@) == location_names(locations@),
{
    let mut r: Vec<String> = Vec::new();
    let mut i: usize = 0;
    while i < locations.len()
        invariant
            i <= locations.len(),
            r@.len() == i,
            string_views(r@) == location_names(locations@.take(i as int)),
        decreases locations.len() - i,
    {
        let ghost prev = r@;
        r.push(locations[i].name.clone());
        proof {
            assert forall|j: int| 0 <= j < i implies #[trigger] string_views(r@)[j]
                == location_names(locations@.take(i + 1))[j] by {
                assert(string_views(prev)[j] == location_names(locations@.take(i as int))[j]);
            }
            assert(string_views(r@) =~= location_names(locations@.take(i + 1)));
        }
        i = i + 1;
    }
    proof {
        assert(locations@.take(locations.len() as int) =~= locations@);
    }
    r
}

/// The image files still to resolve: those the records name and no known
/// location has, in record order.
pub fn pending_image_files(raws: &Vec<RawItem>, locations: &Vec<ImageLocation>) -> (r: Vec<String>)
    ensures
        string_views(r@) == pending_files_spec(raws@, location_names(locations@)),
{
    let have = names_of_locations(locations);
    let mut r: Vec<String> = Vec::new();
    let mut i: usize = 0;
    while i < raws.len()
        invariant
            i <= raws.len(),
            string_views(have@) == location_names(locations@),
            string_views(r@) == pending_files_spec(raws@.take(i as int), location_names(locations@)),
        decreases raws.len() - i,
    {
        proof {
            assert(raws@.take(i + 1).drop_last() =~= raws@.take(i as int));
        }
        match &raws[i].imagefile {
            Some(f) => {
                if !contains_name(&have, f.as_str()) {
                    let ghost prev = r@;
                    r.push(f.clone());
                    proof {
                        assert(string_views(r@) =~= string_views(prev).push(f@));
                    }
                }
            },
            None => {},
        }
        i = i + 1;
    }
    proof {
        assert(raws@.take(raws.len() as int) =~= raws@);
    }
    r
}

/// The `titles` parameter of an image-info query: each name prefixed with
/// `File:`, joined by `|`.
pub open spec fn titles_spec(names: Seq<Seq<char>>) -> Seq<char>
    decreases names.len(),
{
    if names.len() == 0 {
        Seq::empty()
    } else if names.len() == 1 {
        "File:"@ + names[0]
    } else {
        titles_spec(names.drop_last()) + "|"@ + "File:"@ + names.last()
    }
}

pub fn image_titles(names: &Vec<String>) -> (r: String)
    ensures
        r@ == titles_spec(string_views(names@)),
{
    let mut out = String::new();
    let mut i: usize = 0;
    while i < names.len()
        invariant
            i <= names.len(),
            out@ == titles_spec(string_views(names@.take(i as int))),
        decreases names.len() - i,
    {
        let ghost before = out@;
        proof {
            assert(string_views(names@.take(i + 1)).drop_last() =~= string_views(
                names@.take(i as int),
            ));
            assert(string_views(names@.take(i + 1)).last() == names@[i as int]@);
        }
        if i > 0 {
            out.append("|");
        }
        out.append("File:");
        out.append(names[i].as_str());
        proof {
            if i == 0 {
                assert(before =~= Seq::<char>::empty());
                assert(out@ =~= "File:"@ + names@[0]@);
            } else {
                assert(out@ =~= before + "|"@ + "File:"@ + names@[i as int]@);
            }
        }
        i = i + 1;
    }
    proof {
        assert(names@.take(names.len() as int) =~= names@);
    }
    out
}


pub open spec fn sorted_by_name(ls: Seq<ImageLocation>) -> bool {
    forall|i: int, j: int| 0 <= i < j < ls.len() ==> seq_le(ls[i].name@, ls[j].name@)
}

/// Orders locations by name.
#[verifier::rlimit(40)]
pub fn sort_by_name(locations: Vec<ImageLocation>) -> (r: Vec<ImageLocation>)
    ensures
        sorted_by_name(r@),
        r@.to_multiset() == locations@.to_multiset(),
{
    let ghost orig = locations@;
    let mut rest = locations;
    let mut out: Vec<ImageLocation> = Vec::new();
    proof {
        out@.to_multiset_ensures();
        vstd::multiset::lemma_multiset_empty_len(out@.to_multiset());
        assert(out@.to_multiset().add(rest@.to_multiset()) =~= orig.to_multiset());
    }
    while rest.len() > 0
        invariant
            sorted_by_name(out@),
            out@.to_multiset().add(rest@.to_multiset()) == orig.to_multiset(),
        decreases rest.len(),
    {
        let ghost before = rest@;
        let x = rest.remove(0);
        proof {
            assert(before.remove(0) =~= rest@);
        }
        let mut pos: usize = 0;
        while pos < out.len() && !str_lt(x.name.as_str(), out[pos].name.as_str())
            invariant
                pos <= out.len(),
                forall|k: int| 0 <= k < pos ==> seq_le((#[trigger] out@[k]).name@, x.name@),
            decreases out.len() - pos,
        {
            proof {
                lemma_seq_lt_total(x.name@, out@[pos as int].name@);
            }
            pos = pos + 1;
        }
        let ghost prev = out@;
        out.insert(pos, x);
        proof {
            assert(out@ == prev.insert(pos as int, x));
            prev.insert_ensures(pos as int, x);
            assert forall|i: int, j: int| 0 <= i < j < out@.len() implies seq_le(
                out@[i].name@,
                out@[j].name@,
            ) by {
                if j < pos {
                } else if j == pos {
                    if i < pos {
                        assert(out@[i] == prev[i]);
                    }
                } else if i < pos {
                    assert(out@[j] == prev[j - 1]);
                    assert(out@[i] == prev[i]);
                } else if i == pos {
                    assert(out@[j] == prev[j - 1]);
                    let p = prev[pos as int].name@;
                    assert(seq_lt(x.name@, p));
                    assert(seq_le(p, prev[j - 1].name@));
                    if p != prev[j - 1].name@ {
                        lemma_seq_lt_transitive(x.name@, p, prev[j - 1].name@);
                    }
                } else {
                    assert(out@[j] == prev[j - 1]);
                    assert(out@[i] == prev[i - 1]);
                }
            }
            before.to_multiset_ensures();
            assert(before.to_multiset().count(x) > 0);
            assert(before.to_multiset() =~= rest@.to_multiset().insert(x));
            vstd::seq_lib::to_multiset_insert(prev, pos as int, x);
            assert(out@.to_multiset() =~= prev.to_multiset().insert(x));
            assert(out@.to_multiset().add(rest@.to_multiset()) =~= prev.to_multiset().add(
                before.to_multiset(),
            ));
        }
    }
    proof {
        rest@.to_multiset_ensures();
        vstd::multiset::lemma_multiset_empty_len(rest@.to_multiset());
        assert(out@.to_multiset().add(rest@.to_multiset()) =~= out@.to_multiset());
    }
    out
}

} // verus!
