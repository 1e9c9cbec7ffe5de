//! Resolution of `wiki://` image addresses against the stored images.
use vstd::prelude::*;
use crate::image::Image;
use crate::text::equals;

verus! {

/// Why an address did not resolve to an image.
#[derive(Debug, Clone, Copy, PartialEq, Eq, Structural)]
pub enum LoadFailure {
    /// The address does not use the `wiki://` scheme.
    NotSupported,
    /// No stored image has the name the address gives.
    NotFound,
}

/// Looks stored images up by address.
pub struct Loader {
    pub images: Vec<Image>,
}

/// The image name an address names, if it uses the `wiki://` scheme.
pub open spec fn wiki_name(uri: Seq<char>) -> Option<Seq<char>> {
    if "wiki://"@.is_prefix_of(uri) {
        Some(uri.skip(7))
    } else {
        None
    }
}

impl Loader {
    pub fn new(images: Vec<Image>) -> (r: Loader)
        ensures
            r.images == images,
    {
        Loader { images }
    }

    /// The index of the first image named by `uri`, an address of the form
    /// `wiki://<name>`.
    pub fn load(&self, uri: &str) -> (r: Result<usize, LoadFailure>)
        ensures
            match r {
                Ok(i) => wiki_name(uri@) is Some && i < self.images@.len()
                    && self.images@[i as int].name@ == wiki_name(uri@)->0 && forall|j: int|
                    0 <= j < i ==> (#[trigger] self.images@[j]).name@ != wiki_name(uri@)->0,
                Err(LoadFailure::NotSupported) => wiki_name(uri@) is None,
                Err(LoadFailure::NotFound) => wiki_name(uri@) is Some && forall|j: int|
                    0 <= j < self.images@.len() ==> (#[trigger] self.images@[j]).name@
                        != wiki_name(uri@)->0,
            },
    {
        proof {
            reveal_strlit("wiki://");
        }
        let n = uri.unicode_len();
        if n < 7 || !equals(uri.substring_char(0, 7), "wiki://") {
            proof {
                if n >= 7 {
                    assert(uri@.subrange(0, 7) == uri@.take(7));
                }
            }
            return Err(LoadFailure::NotSupported);
        }
        proof {
            assert(uri@.subrange(0, 7) =~= uri@.take(7));
            assert(wiki_name(uri@) is Some);
        }
        let name = uri.substring_char(7, n);
        proof {
            assert(name@ =~= uri@.skip(7));
        }
        let mut i: usize = 0;
        while i < self.images.len()
            invariant
                i <= self.images@.len(),
                wiki_name(uri@) is Some,
                name@ == wiki_name(uri@)->0,
                forall|j: int| 0 <= j < i ==> (#[trigger] self.images@[j]).name@ != name@,
            decreases self.images.len() - i,
        {
            if equals(self.images[i].name.as_str(), name) {
                return Ok(i);
            }
            i = i + 1;
        }
        Err(LoadFailure::NotFound)
    }
}

} // verus!
