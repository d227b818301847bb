//! Keeping textures sized to their viewports.
//!
//! A resizer first states, per entity, which texture should have which size
//! (a request), then reallocates exactly the requested textures whose stored
//! size differs. Handles keep their identity: nothing that refers to a
//! texture needs updating after it is reallocated.

use vstd::prelude::*;
use crate::image::{Extent3d, Image, ImageHandle, Images, resized, valid_handle};

verus! {

/// One texture that should have a given size.
pub type ResizeRequest = Option<(ImageHandle, Extent3d)>;

/// Request `q` names an image of `imgs` whose stored size differs from the
/// requested one.
pub open spec fn request_out_of_date(imgs: Seq<Image>, q: ResizeRequest) -> bool {
    q is Some && valid_handle(imgs, q->Some_0.0) && imgs[q->Some_0.0.id as int].size
        != q->Some_0.1
}

/// No two requests name the same texture.
pub open spec fn requests_distinct(reqs: Seq<ResizeRequest>) -> bool {
    forall|i: int, j: int|
        #![trigger reqs[i], reqs[j]]
        0 <= i < reqs.len() && 0 <= j < reqs.len() && i != j && reqs[i] is Some && reqs[j] is Some
            ==> reqs[i]->Some_0.0 != reqs[j]->Some_0.0
}

/// The textures that the first `n` requests reallocate, in request order.
pub open spec fn reallocated(reqs: Seq<ResizeRequest>, imgs: Seq<Image>, n: int) -> Seq<
    ImageHandle,
>
    decreases n,
{
    if n <= 0 {
        Seq::empty()
    } else if request_out_of_date(imgs, reqs[n - 1]) {
        reallocated(reqs, imgs, n - 1).push(reqs[n - 1]->Some_0.0)
    } else {
        reallocated(reqs, imgs, n - 1)
    }
}

/// `r` lists a handle of image `i`.
pub open spec fn lists_image(r: Seq<ImageHandle>, i: int) -> bool {
    exists|m: int| 0 <= m < r.len() && r[m].id == i
}

/// What a resizer does with `reqs`: the store goes from `before` to `after`, and
/// `r` lists the reallocated textures. Each out-of-date request is
/// reallocated at its size; every other image is left as it was.
pub open spec fn resize_post(
    reqs: Seq<ResizeRequest>,
    before: Seq<Image>,
    after: Seq<Image>,
    r: Seq<ImageHandle>,
) -> bool {
    &&& after.len() == before.len()
    &&& r == reallocated(reqs, before, reqs.len() as int)
    &&& forall|k: int|
        #![trigger reqs[k]]
        0 <= k < reqs.len() && request_out_of_date(before, reqs[k]) ==> after[reqs[k]->Some_0.0.id as int]
            == resized(before[reqs[k]->Some_0.0.id as int], reqs[k]->Some_0.1)
    &&& forall|i: int|
        #![trigger after[i]]
        0 <= i < before.len() && !lists_image(r, i) ==> after[i] == before[i]
}

/// Every handle that `reallocated` lists comes from an out-of-date request.
pub proof fn lemma_reallocated_source(reqs: Seq<ResizeRequest>, imgs: Seq<Image>, n: int, k: int)
    requires
        0 <= n <= reqs.len(),
        0 <= k < reallocated(reqs, imgs, n).len(),
    ensures
        exists|j: int|
            0 <= j < n && request_out_of_date(imgs, #[trigger] reqs[j]) && reqs[j]->Some_0.0
                == reallocated(reqs, imgs, n)[k],
    decreases n,
{
    if n > 0 {
        let prev = reallocated(reqs, imgs, n - 1);
        if request_out_of_date(imgs, reqs[n - 1]) && k == prev.len() {
            assert(reqs[n - 1]->Some_0.0 == reallocated(reqs, imgs, n)[k]);
        } else {
            lemma_reallocated_source(reqs, imgs, n - 1, k);
        }
    }
}

/// Nothing is reallocated when no request is out of date.
proof fn lemma_reallocated_none(reqs: Seq<ResizeRequest>, imgs: Seq<Image>, n: int)
    requires
        0 <= n <= reqs.len(),
        forall|k: int|
            #![trigger reqs[k]]
            0 <= k < n ==> !request_out_of_date(imgs, reqs[k]),
    ensures
        reallocated(reqs, imgs, n).len() == 0,
    decreases n,
{
    if n > 0 {
        lemma_reallocated_none(reqs, imgs, n - 1);
    }
}

/// Reallocates image `h` at `size` if its stored size differs; returns
/// whether it did.
pub fn resize_if_out_of_date(images: &mut Images, h: ImageHandle, size: Extent3d) -> (r: bool)
    ensures
        r == request_out_of_date(old(images)@, Some((h, size))),
        final(images)@ == (if r {
            old(images)@.update(h.id as int, resized(old(images)@[h.id as int], size))
        } else {
            old(images)@
        }),
{
    match images.get(h) {
        Some(image) => {
            if image.size != size {
                images.resize(h, size)
            } else {
                false
            }
        },
        None => false,
    }
}

/// Carries out `reqs` in order and returns the reallocated handles.
pub fn apply_resize_requests(images: &mut Images, reqs: &Vec<ResizeRequest>) -> (r: Vec<
    ImageHandle,
>)
    requires
        requests_distinct(reqs@),
    ensures
        resize_post(reqs@, old(images)@, final(images)@, r@),
{
    let ghost old_imgs = images@;
    let mut r: Vec<ImageHandle> = Vec::new();
    let mut k: usize = 0;
    while k < reqs.len()
        invariant
            0 <= k <= reqs.len(),
            requests_distinct(reqs@),
            images@.len() == old_imgs.len(),
            r@ == reallocated(reqs@, old_imgs, k as int),
            forall|j: int|
                #![trigger reqs@[j]]
                0 <= j < k && request_out_of_date(old_imgs, reqs@[j]) ==> images@[reqs@[j]->Some_0.0.id as int]
                    == resized(old_imgs[reqs@[j]->Some_0.0.id as int], reqs@[j]->Some_0.1),
            forall|i: int|
                #![trigger images@[i]]
                0 <= i < old_imgs.len() && !lists_image(r@, i)
                    ==> images@[i] == old_imgs[i],
        decreases reqs.len() - k,
    {
        let q = reqs[k];
        if let Some((h, size)) = q {
            proof {
                // The texture of request k was not touched by an earlier one.
                if valid_handle(old_imgs, h) {
                    assert forall|m: int| 0 <= m < r@.len() implies r@[m].id != h.id by {
                        lemma_reallocated_source(reqs@, old_imgs, k as int, m);
                    }
                    assert(images@[h.id as int] == old_imgs[h.id as int]);
                }
            }
            let ghost r_before = r@;
            let did = resize_if_out_of_date(images, h, size);
            if did {
                r.push(h);
            }
            proof {
                assert forall|i: int| !lists_image(r@, i) implies !lists_image(r_before, i) && (did
                    ==> i != h.id) by {
                    if lists_image(r_before, i) {
                        let m = choose|m: int| 0 <= m < r_before.len() && r_before[m].id == i;
                        assert(r@[m] == r_before[m]);
                    }
                    if did && i == h.id {
                        assert(r@[r@.len() - 1] == h);
                    }
                }
                assert forall|i: int|
                    #![trigger images@[i]]
                    0 <= i < old_imgs.len() && !lists_image(r@, i) implies images@[i]
                        == old_imgs[i] by {
                    assert(!lists_image(r_before, i));
                }
                assert(reqs@[k as int] == q);
                assert forall|j: int|
                    #![trigger reqs@[j]]
                    0 <= j < k + 1 && request_out_of_date(old_imgs, reqs@[j]) implies images@[reqs@[j]->Some_0.0.id as int]
                        == resized(old_imgs[reqs@[j]->Some_0.0.id as int], reqs@[j]->Some_0.1) by {
                    if j < k {
                        assert(reqs@[j]->Some_0.0 != h);
                    }
                }
            }
        } else {
            assert(reqs@[k as int] == q);
        }
        k = k + 1;
    }
    assert(reqs@.len() == reqs.len());
    r
}

/// Resizing twice in a row with the same requests: the second pass
/// reallocates nothing and leaves every image as the first pass left it, and
/// after the first pass each requested texture has its requested size.
pub proof fn lemma_resize_idempotent(
    reqs: Seq<ResizeRequest>,
    imgs0: Seq<Image>,
    imgs1: Seq<Image>,
    r1: Seq<ImageHandle>,
    imgs2: Seq<Image>,
    r2: Seq<ImageHandle>,
)
    requires
        requests_distinct(reqs),
        resize_post(reqs, imgs0, imgs1, r1),
        resize_post(reqs, imgs1, imgs2, r2),
    ensures
        r2.len() == 0,
        imgs2 == imgs1,
        forall|k: int|
            #![trigger reqs[k]]
            0 <= k < reqs.len() && reqs[k] is Some && valid_handle(imgs1, reqs[k]->Some_0.0)
                ==> imgs1[reqs[k]->Some_0.0.id as int].size == reqs[k]->Some_0.1,
{
    assert forall|k: int|
        #![trigger reqs[k]]
        0 <= k < reqs.len() && reqs[k] is Some && valid_handle(imgs1, reqs[k]->Some_0.0)
            implies imgs1[reqs[k]->Some_0.0.id as int].size == reqs[k]->Some_0.1 by {
        let h = reqs[k]->Some_0.0;
        if !request_out_of_date(imgs0, reqs[k]) {
            if lists_image(r1, h.id as int) {
                let m = choose|m: int| 0 <= m < r1.len() && r1[m].id == h.id;
                lemma_reallocated_source(reqs, imgs0, reqs.len() as int, m);
            }
        }
    }
    lemma_reallocated_none(reqs, imgs1, reqs.len() as int);
    assert forall|i: int| 0 <= i < imgs1.len() implies imgs2[i] == imgs1[i] by {
        assert(!lists_image(r2, i));
    }
    assert(imgs2 =~= imgs1);
}

} // verus!
