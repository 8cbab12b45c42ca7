//! The size-sorted collection of verified icons and its queries.
//!
//! A collection is built once, from icons that all carry dimensions, and is
//! sorted ascending by pixel area. Queries consume the collection: callers
//! pick one icon and discard the rest.

use crate::icon::Icon;
use vstd::multiset::Multiset;
use vstd::prelude::*;

verus! {

/// Whether both dimensions of an icon are present.
pub open spec fn has_dims(icon: Icon) -> bool {
    icon.width is Some && icon.height is Some
}

/// The pixel area of an icon whose dimensions are present.
pub open spec fn icon_area(icon: Icon) -> int {
    icon.width.unwrap() * icon.height.unwrap()
}

/// Whether an icon meets a minimum width and height.
pub open spec fn qualifies(icon: Icon, width: u32, height: u32) -> bool {
    icon.width.unwrap() >= width && icon.height.unwrap() >= height
}

/// Whether every icon of the sequence carries both dimensions.
pub open spec fn all_have_dims(s: Seq<Icon>) -> bool {
    forall|i: int| 0 <= i < s.len() ==> has_dims(#[trigger] s[i])
}

/// Whether the sequence is sorted ascending by pixel area.
pub open spec fn sorted_by_area(s: Seq<Icon>) -> bool {
    forall|i: int, j: int| 0 <= i < j < s.len() ==> icon_area(#[trigger] s[i]) <= icon_area(
        #[trigger] s[j],
    )
}

/// The index of the first icon meeting the minimum, or the length of the
/// sequence when none does.
pub open spec fn first_qualifying(s: Seq<Icon>, width: u32, height: u32) -> int
    decreases s.len(),
{
    if s.len() == 0 {
        0
    } else if qualifies(s[0], width, height) {
        0
    } else {
        1 + first_qualifying(s.drop_first(), width, height)
    }
}

/// The first qualifying index is within bounds, nothing before it qualifies,
/// and the icon there qualifies when the index is in bounds.
pub proof fn lemma_first_qualifying(s: Seq<Icon>, width: u32, height: u32)
    ensures
        0 <= first_qualifying(s, width, height) <= s.len(),
        forall|k: int|
            0 <= k < first_qualifying(s, width, height) ==> !qualifies(#[trigger] s[k], width, height),
        first_qualifying(s, width, height) < s.len() ==> qualifies(
            s[first_qualifying(s, width, height)],
            width,
            height,
        ),
    decreases s.len(),
{
    if s.len() == 0 {
    } else if qualifies(s[0], width, height) {
    } else {
        lemma_first_qualifying(s.drop_first(), width, height);
        let f = first_qualifying(s, width, height);
        assert forall|k: int| 0 <= k < f implies !qualifies(#[trigger] s[k], width, height) by {
            if k >= 1 {
                assert(s.drop_first()[k - 1] == s[k]);
            }
        }
        if f < s.len() {
            assert(s.drop_first()[f - 1] == s[f]);
        }
    }
}

/// Computes the pixel area of an icon with both dimensions present.
fn area_u64(icon: &Icon) -> (a: u64)
    requires
        has_dims(*icon),
    ensures
        a == icon_area(*icon),
{
    let w = icon.width.unwrap();
    let h = icon.height.unwrap();
    proof {
        assert(w * h <= u64::MAX) by (nonlinear_arith)
            requires
                w <= u32::MAX,
                h <= u32::MAX,
        ;
    }
    (w as u64) * (h as u64)
}

/// Tests whether an icon meets a minimum width and height.
fn icon_qualifies(icon: &Icon, width: u32, height: u32) -> (r: bool)
    requires
        has_dims(*icon),
    ensures
        r == qualifies(*icon, width, height),
{
    icon.width.unwrap() >= width && icon.height.unwrap() >= height
}

/// An immutable collection of verified icons, sorted ascending by pixel
/// area. Every member carries both dimensions; this is established at
/// construction, not re-validated afterwards.
#[derive(Debug)]
pub struct IconCollection {
    icons: Vec<Icon>,
}

impl View for IconCollection {
    type V = Seq<Icon>;

    closed spec fn view(&self) -> Seq<Icon> {
        self.icons@
    }
}

impl IconCollection {
    /// Well-formedness: every icon carries both dimensions and the sequence
    /// is sorted ascending by area. The constructor establishes this; every
    /// query relies on it.
    pub open spec fn wf(&self) -> bool {
        all_have_dims(self@) && sorted_by_area(self@)
    }

    /// Builds a collection from verified icons, sorting them ascending by
    /// pixel area. The result holds exactly the given icons; ties in area
    /// are broken arbitrarily.
    #[verifier::loop_isolation(false)]
    pub fn from_raw(icons: Vec<Icon>) -> (c: IconCollection)
        requires
            all_have_dims(icons@),
        ensures
            c.wf(),
            c@.to_multiset() == icons@.to_multiset(),
            c@.len() == icons@.len(),
    {
        broadcast use vstd::seq_lib::group_to_multiset_ensures;
        broadcast use vstd::multiset::group_multiset_axioms;

        let ghost orig = icons@;
        let mut input = icons;
        let mut sorted: Vec<Icon> = Vec::new();
        proof {
            assert(sorted@.to_multiset().add(input@.to_multiset()) =~= orig.to_multiset());
        }
        while input.len() > 0
        invariant
            all_have_dims(input@),
            all_have_dims(sorted@),
            sorted_by_area(sorted@),
            sorted@.to_multiset().add(input@.to_multiset()) == orig.to_multiset(),
            sorted@.len() + input@.len() == orig.len(),
        decreases input@.len(),
        {
            let ghost input0 = input@;
            let x = input.pop().unwrap();
            proof {
                assert(input0 =~= input@.push(x));
                assert(input@.push(x).to_multiset() == input@.to_multiset().insert(x));
            }
            let xa = area_u64(&x);
            let mut j: usize = 0;
            while j < sorted.len()
                invariant
                    0 <= j <= sorted@.len(),
                    all_have_dims(sorted@),
                    sorted_by_area(sorted@),
                    has_dims(x),
                    xa == icon_area(x),
                    forall|k: int| 0 <= k < j ==> icon_area(#[trigger] sorted@[k]) <= icon_area(x),
                decreases sorted@.len() - j,
            {
                if area_u64(&sorted[j]) > xa {
                    break ;
                }
                j += 1;
            }
            let ghost before = sorted@;
            sorted.insert(j, x);
            proof {
                assert(sorted@ == before.insert(j as int, x));
                assert(before.insert(j as int, x).to_multiset() == before.to_multiset().insert(x));
                assert(sorted@.to_multiset().add(input@.to_multiset()) =~= orig.to_multiset());
                assert forall|a: int, b: int| 0 <= a < b < sorted@.len() implies icon_area(
                    #[trigger] sorted@[a],
                ) <= icon_area(#[trigger] sorted@[b]) by {
                    if b < j {
                        assert(sorted@[a] == before[a] && sorted@[b] == before[b]);
                    } else if a < j && b == j {
                        assert(sorted@[a] == before[a]);
                    } else if a < j && b > j {
                        assert(sorted@[a] == before[a] && sorted@[b] == before[b - 1]);
                        assert(j < before.len() + 1);
                        if j < before.len() {
                            assert(icon_area(before[j as int]) > icon_area(x));
                        }
                    } else if a == j {
                        assert(sorted@[b] == before[b - 1]);
                        assert(icon_area(before[b - 1]) > icon_area(x));
                    } else {
                        assert(sorted@[a] == before[a - 1] && sorted@[b] == before[b - 1]);
                    }
                }
                assert(all_have_dims(sorted@)) by {
                    assert forall|k: int| 0 <= k < sorted@.len() implies has_dims(
                        #[trigger] sorted@[k],
                    ) by {
                        if k < j {
                            assert(sorted@[k] == before[k]);
                        } else if k > j {
                            assert(sorted@[k] == before[k - 1]);
                        }
                    }
                }
            }
        }
        proof {
            assert(input@.to_multiset() =~= Multiset::<Icon>::empty());
            assert(sorted@.to_multiset().add(input@.to_multiset()) =~= sorted@.to_multiset());
        }
        IconCollection { icons: sorted }
    }

    /// The icon of at least the given dimensions with the smallest area, or,
    /// when none is large enough, the largest icon overall: callers always
    /// prefer some icon over none. Absent only on an empty collection.
    #[verifier::loop_isolation(false)]
    pub fn at_least(self, width: u32, height: u32) -> (r: Option<Icon>)
        requires
            self.wf(),
        ensures
            (r is Some) == (self@.len() > 0),
            self@.len() > 0 ==> r == Some(
                if first_qualifying(self@, width, height) < self@.len() {
                    self@[first_qualifying(self@, width, height)]
                } else {
                    self@.last()
                },
            ),
            self@.len() > 0 && (forall|i: int|
                0 <= i < self@.len() ==> !qualifies(#[trigger] self@[i], width, height)) ==> r
                == Some(self@.last()),
            r is Some && (exists|j: int|
                0 <= j < self@.len() && qualifies(#[trigger] self@[j], width, height)) ==> qualifies(
                r.unwrap(),
                width,
                height,
            ) && (forall|j: int|
                0 <= j < self@.len() && qualifies(#[trigger] self@[j], width, height)
                    ==> icon_area(r.unwrap()) <= icon_area(self@[j])),
            r matches Some(icon) ==> self@.contains(icon) && has_dims(icon),
    {
        let ghost s0 = self@;
        let mut icons = self.icons;
        if icons.len() == 0 {
            return None;
        }
        let mut i: usize = 0;
        while i < icons.len()
            invariant
                0 <= i <= icons@.len(),
                icons@ == s0,
                all_have_dims(s0),
                s0.len() > 0,
                forall|k: int| 0 <= k < i ==> !qualifies(#[trigger] s0[k], width, height),
            decreases icons@.len() - i,
        {
            if icon_qualifies(&icons[i], width, height) {
                proof {
                    lemma_first_qualifying(s0, width, height);
                    let f = first_qualifying(s0, width, height);
                    assert(qualifies(s0[i as int], width, height));
                    if f > i {
                        assert(!qualifies(s0[i as int], width, height));
                    }
                    if f < i {
                        assert(qualifies(s0[f], width, height));
                        assert(!qualifies(s0[f], width, height));
                    }
                    assert(f == i);
                }
                let found = icons.remove(i);
                proof {
                    assert(found == s0[i as int]);
                    assert(s0.contains(found)) by {
                        assert(s0[i as int] == found);
                    }
                    assert forall|j: int|
                        0 <= j < s0.len() && qualifies(
                            #[trigger] s0[j],
                            width,
                            height,
                        ) implies icon_area(found) <= icon_area(s0[j]) by {
                        if j < i {
                            assert(!qualifies(s0[j], width, height));
                        }
                    }
                }
                return Some(found);
            }
            i += 1;
        }
        proof {
            lemma_first_qualifying(s0, width, height);
            let f = first_qualifying(s0, width, height);
            if f < s0.len() {
                assert(qualifies(s0[f], width, height));
                assert(!qualifies(s0[f], width, height));
            }
            assert(f >= s0.len());
            assert(s0.contains(s0.last())) by {
                assert(s0[s0.len() - 1] == s0.last());
            }
        }
        let last = icons.pop();
        last
    }

    /// The largest icon: the maximum-area member, or absent when the
    /// collection is empty.
    pub fn largest(self) -> (r: Option<Icon>)
        requires
            self.wf(),
        ensures
            (r is Some) == (self@.len() > 0),
            self@.len() > 0 ==> r == Some(self@.last()),
            r matches Some(icon) ==> self@.contains(icon) && has_dims(icon) && forall|i: int|
                0 <= i < self@.len() ==> icon_area(#[trigger] self@[i]) <= icon_area(icon),
    {
        let mut icons = self.icons;
        let r = icons.pop();
        proof {
            if self@.len() > 0 {
                assert(self@.contains(self@.last())) by {
                    assert(self@[self@.len() - 1] == self@.last());
                }
            }
        }
        r
    }

    /// Gives up ownership of the backing vector of icons, sorted ascending
    /// by area.
    pub fn into_raw_parts(self) -> (r: Vec<Icon>)
        ensures
            r@ == self@,
    {
        self.icons
    }
}

} // verus!
