use vstd::prelude::*;
use vstd::string::*;

use crate::object::{ObjectData, ObjectKind, ObjectView};
use crate::text::{decimal, push_decimal};

verus! {

/// A drawing: its size in pixels and its objects, bottom-most first.
#[derive(Debug)]
pub struct Document {
    pub width: u32,
    pub height: u32,
    pub objects: Vec<ObjectData>,
}

/// The value of a [`Document`].
#[verifier::ext_equal]
pub struct DocumentView {
    pub width: u32,
    pub height: u32,
    pub objects: Seq<ObjectView>,
}

impl View for Document {
    type V = DocumentView;

    open spec fn view(&self) -> DocumentView {
        DocumentView {
            width: self.width,
            height: self.height,
            objects: self.objects@.map_values(|o: ObjectData| o@),
        }
    }
}

/// `i` is the first index of an object with id `id`.
pub open spec fn is_first_with_id(objects: Seq<ObjectView>, id: Seq<char>, i: int) -> bool {
    &&& 0 <= i < objects.len()
    &&& objects[i].id == id
    &&& forall|j: int| 0 <= j < i ==> objects[j].id != id
}

/// No object has id `id`.
pub open spec fn lacks_id(objects: Seq<ObjectView>, id: Seq<char>) -> bool {
    forall|j: int| 0 <= j < objects.len() ==> objects[j].id != id
}

/// The index of the first object with id `id`, if any.
pub open spec fn first_index(objects: Seq<ObjectView>, id: Seq<char>) -> Option<int> {
    if exists|i: int| is_first_with_id(objects, id, i) {
        Some(choose|i: int| is_first_with_id(objects, id, i))
    } else {
        None
    }
}

/// An object with id `id` exists exactly when a first one does.
proof fn lemma_some_first(objects: Seq<ObjectView>, id: Seq<char>)
    ensures
        lacks_id(objects, id) || exists|i: int| is_first_with_id(objects, id, i),
    decreases objects.len(),
{
    if objects.len() > 0 {
        let rest = objects.drop_last();
        lemma_some_first(rest, id);
        if lacks_id(rest, id) {
            if objects.last().id == id {
                assert forall|j: int| 0 <= j < objects.len() - 1 implies objects[j].id != id by {
                    assert(rest[j] == objects[j]);
                }
                assert(is_first_with_id(objects, id, objects.len() - 1));
            } else {
                assert forall|j: int| 0 <= j < objects.len() implies objects[j].id != id by {
                    if j < objects.len() - 1 {
                        assert(rest[j] == objects[j]);
                    }
                }
            }
        } else {
            let i = choose|i: int| is_first_with_id(rest, id, i);
            assert forall|j: int| 0 <= j < i implies objects[j].id != id by {
                assert(rest[j] == objects[j]);
            }
            assert(rest[i] == objects[i]);
            assert(is_first_with_id(objects, id, i));
        }
    }
}

/// `first_index` names the first index exactly.
pub proof fn lemma_first_index(objects: Seq<ObjectView>, id: Seq<char>)
    ensures
        match first_index(objects, id) {
            Some(i) => is_first_with_id(objects, id, i),
            None => lacks_id(objects, id),
        },
        forall|i: int| #[trigger] is_first_with_id(objects, id, i) ==> first_index(objects, id) == Some(i),
        lacks_id(objects, id) ==> first_index(objects, id) is None,
{
    lemma_some_first(objects, id);
    if exists|i: int| is_first_with_id(objects, id, i) {
        let k = choose|i: int| is_first_with_id(objects, id, i);
        assert forall|i: int| #[trigger] is_first_with_id(objects, id, i) implies i == k by {
            if i < k {
                assert(objects[i].id == id);
            } else if k < i {
                assert(objects[k].id == id);
            }
        }
        if lacks_id(objects, id) {
            assert(objects[k].id == id);
        }
    }
}

/// `objects` with the entries at `i` and `j` exchanged.
pub open spec fn swap_entries<A>(objects: Seq<A>, i: int, j: int) -> Seq<A> {
    objects.update(i, objects[j]).update(j, objects[i])
}

/// The objects after raising the first object with id `id` one place, if
/// there is one and it is not on top.
pub open spec fn spec_move_up(objects: Seq<ObjectView>, id: Seq<char>) -> Seq<ObjectView> {
    match first_index(objects, id) {
        Some(i) => if i + 1 < objects.len() {
            swap_entries(objects, i, i + 1)
        } else {
            objects
        },
        None => objects,
    }
}

/// The objects after lowering the first object with id `id` one place, if
/// there is one and it is not at the bottom.
pub open spec fn spec_move_down(objects: Seq<ObjectView>, id: Seq<char>) -> Seq<ObjectView> {
    match first_index(objects, id) {
        Some(i) => if i > 0 {
            swap_entries(objects, i, i - 1)
        } else {
            objects
        },
        None => objects,
    }
}

/// The id of the last (top-most) object that is visible and marked in
/// `inside`, if any.
pub open spec fn spec_topmost_hit(objects: Seq<ObjectView>, inside: Seq<bool>) -> Option<Seq<char>>
    decreases objects.len(),
{
    if objects.len() == 0 {
        None
    } else if objects.last().visible && inside[objects.len() - 1] {
        Some(objects.last().id)
    } else {
        spec_topmost_hit(objects.drop_last(), inside)
    }
}

/// The objects of `objects` whose id is not `id`, in order.
pub open spec fn without_id(objects: Seq<ObjectView>, id: Seq<char>) -> Seq<ObjectView> {
    objects.filter(|o: ObjectView| o.id != id)
}

/// How many of `objects` are of `kind`.
pub open spec fn count_of_kind(objects: Seq<ObjectView>, kind: ObjectKind) -> nat {
    objects.filter(|o: ObjectView| o.kind == kind).len()
}

/// `obj_` followed by the decimal digits of `n`.
pub open spec fn object_id_text(n: nat) -> Seq<char> {
    seq!['o', 'b', 'j', '_'] + decimal(n)
}

/// The id `obj_<n>`.
pub fn object_id(n: u64) -> (id: String)
    ensures
        id@ == object_id_text(n as nat),
{
    let mut id = String::from_str("obj_");
    proof {
        reveal_strlit("obj_");
    }
    push_decimal(&mut id, n);
    id
}

impl Document {
    /// An empty document of the given size.
    pub fn new(width: u32, height: u32) -> (d: Self)
        ensures
            d@ == (DocumentView { width, height, objects: Seq::empty() }),
    {
        let d = Document { width, height, objects: Vec::new() };
        proof {
            assert(d@.objects =~= Seq::<ObjectView>::empty());
        }
        d
    }

    /// An empty 1920 by 1080 document.
    pub fn default_1080p() -> (d: Self)
        ensures
            d@ == (DocumentView { width: 1920, height: 1080, objects: Seq::empty() }),
    {
        Self::new(1920, 1080)
    }

    /// Puts `object` on top of all others.
    pub fn add_object(&mut self, object: ObjectData)
        ensures
            final(self)@ == (DocumentView { objects: old(self)@.objects.push(object@), ..old(self)@ }),
    {
        self.objects.push(object);
        proof {
            assert(final(self)@.objects =~= old(self)@.objects.push(object@));
        }
    }

    /// The index of the first object with id `id`.
    pub fn index_of(&self, id: &str) -> (r: Option<usize>)
        ensures
            match r {
                Some(i) => is_first_with_id(self@.objects, id@, i as int),
                None => lacks_id(self@.objects, id@),
            },
    {
        let target = id.to_owned();
        let n = self.objects.len();
        let mut i: usize = 0;
        while i < n
            invariant
                n == self.objects@.len(),
                i <= n,
                target@ == id@,
                forall|j: int| 0 <= j < i ==> self@.objects[j].id != id@,
            decreases n - i,
        {
            proof {
                assert(self@.objects[i as int] == self.objects@[i as int]@);
            }
            if self.objects[i].id == target {
                return Some(i);
            }
            i = i + 1;
        }
        None
    }

    /// Removes every object with id `id`, keeping the others in order.
    pub fn remove_object(&mut self, id: &str)
        ensures
            final(self)@ == (DocumentView { objects: without_id(old(self)@.objects, id@), ..old(self)@ }),
    {
        let target = id.to_owned();
        let ghost old_objs = self@.objects;
        let ghost width = self.width;
        let ghost height = self.height;
        let ghost pred = |o: ObjectView| o.id != id@;
        let mut i: usize = 0;
        let ghost mut j: int = 0;
        while i < self.objects.len()
            invariant
                self.width == width,
                self.height == height,
                target@ == id@,
                pred == (|o: ObjectView| o.id != id@),
                0 <= j <= old_objs.len(),
                i <= self@.objects.len(),
                self@.objects.take(i as int) == old_objs.take(j).filter(pred),
                self@.objects.skip(i as int) == old_objs.skip(j),
            decreases self.objects@.len() - i,
        {
            let ghost cur = self@.objects;
            proof {
                assert(cur.skip(i as int).len() == old_objs.skip(j).len());
                assert(j < old_objs.len());
                assert(cur.skip(i as int)[0] == old_objs.skip(j)[0]);
                assert(old_objs.take(j + 1) =~= old_objs.take(j).push(old_objs[j]));
                old_objs.take(j).lemma_filter_push(old_objs[j], pred);
                assert(cur[i as int] == self.objects@[i as int]@);
            }
            if self.objects[i].id == target {
                self.objects.remove(i);
                proof {
                    assert(self@.objects.take(i as int) =~= cur.take(i as int));
                    assert(self@.objects.skip(i as int) =~= old_objs.skip(j + 1)) by {
                        assert(cur.skip(i + 1) =~= old_objs.skip(j + 1)) by {
                            assert forall|k: int| 0 <= k < cur.skip(i + 1).len() implies #[trigger] cur.skip(i + 1)[k] == old_objs.skip(j + 1)[k] by {
                                assert(cur.skip(i as int)[k + 1] == old_objs.skip(j)[k + 1]);
                            }
                        }
                    }
                    j = j + 1;
                }
            } else {
                proof {
                    assert(self@.objects.take(i + 1) =~= cur.take(i as int).push(cur[i as int]));
                    assert(self@.objects.skip(i + 1) =~= old_objs.skip(j + 1)) by {
                        assert forall|k: int| 0 <= k < cur.skip(i + 1).len() implies #[trigger] cur.skip(i + 1)[k] == old_objs.skip(j + 1)[k] by {
                            assert(cur.skip(i as int)[k + 1] == old_objs.skip(j)[k + 1]);
                        }
                    }
                    j = j + 1;
                }
                i = i + 1;
            }
        }
        proof {
            assert(self@.objects.skip(i as int).len() == 0);
            assert(j == old_objs.len());
            assert(self@.objects =~= self@.objects.take(i as int));
            assert(old_objs.take(j) =~= old_objs);
        }
    }

    /// Raises the first object with id `id` one place.
    pub fn move_object_up(&mut self, id: &str)
        ensures
            final(self)@ == (DocumentView { objects: spec_move_up(old(self)@.objects, id@), ..old(self)@ }),
    {
        proof {
            lemma_first_index(self@.objects, id@);
        }
        if let Some(idx) = self.index_of(id) {
            let n = self.objects.len();
            if idx + 1 < n {
                let ghost before = self@.objects;
                let o = self.objects.remove(idx);
                self.objects.insert(idx + 1, o);
                proof {
                    assert(self@.objects =~= swap_entries(before, idx as int, idx + 1));
                }
            }
        }
    }

    /// Lowers the first object with id `id` one place.
    pub fn move_object_down(&mut self, id: &str)
        ensures
            final(self)@ == (DocumentView { objects: spec_move_down(old(self)@.objects, id@), ..old(self)@ }),
    {
        proof {
            lemma_first_index(self@.objects, id@);
        }
        if let Some(idx) = self.index_of(id) {
            if idx > 0 {
                let ghost before = self@.objects;
                let o = self.objects.remove(idx);
                self.objects.insert(idx - 1, o);
                proof {
                    assert(self@.objects =~= swap_entries(before, idx as int, idx - 1));
                }
            }
        }
    }

    /// The id of the top-most visible object among those marked in `inside`
    /// (`inside[i]` tells whether the point lies within object `i`).
    pub fn topmost_hit(&self, inside: &Vec<bool>) -> (r: Option<String>)
        requires
            inside@.len() == self@.objects.len(),
        ensures
            match r {
                Some(id) => spec_topmost_hit(self@.objects, inside@) == Some(id@),
                None => spec_topmost_hit(self@.objects, inside@) is None,
            },
            match r {
                Some(id) => exists|i: int|
                    #![trigger self@.objects[i]]
                    0 <= i < self@.objects.len() && self@.objects[i].visible && inside@[i] && self@.objects[i].id == id@
                        && forall|j: int| i < j < self@.objects.len() ==> !(#[trigger] self@.objects[j].visible && inside@[j]),
                None => forall|i: int| 0 <= i < self@.objects.len() ==> !(#[trigger] self@.objects[i].visible && inside@[i]),
            },
    {
        proof {
            lemma_topmost_hit(self@.objects, inside@);
        }
        let mut i = self.objects.len();
        proof {
            assert(self@.objects.take(i as int) =~= self@.objects);
        }
        while i > 0
            invariant
                i <= self@.objects.len(),
                inside@.len() == self@.objects.len(),
                spec_topmost_hit(self@.objects, inside@) == spec_topmost_hit(self@.objects.take(i as int), inside@),
            decreases i,
        {
            let ghost prefix = self@.objects.take(i as int);
            proof {
                assert(prefix.drop_last() =~= self@.objects.take(i - 1));
                assert(prefix.last() == self.objects@[i - 1]@);
            }
            if self.objects[i - 1].visible && inside[i - 1] {
                proof {
                    lemma_topmost_hit(self@.objects, inside@);
                }
                return Some(self.objects[i - 1].id.clone());
            }
            i = i - 1;
        }
        None
    }

    /// The first object with id `id`, for changing it in place.
    pub fn get_object_mut(&mut self, id: &str) -> (r: Option<&mut ObjectData>)
        ensures
            final(self).width == old(self).width,
            final(self).height == old(self).height,
            match first_index(old(self)@.objects, id@) {
                Some(i) => r matches Some(o) && *o == old(self).objects@[i]
                    && final(self).objects@ == old(self).objects@.update(i, *final(o)),
                None => r is None && final(self).objects@ == old(self).objects@,
            },
    {
        proof {
            lemma_first_index(self@.objects, id@);
        }
        match self.index_of(id) {
            Some(i) => {
                Some(&mut self.objects[i])
            },
            None => None,
        }
    }

    /// The first object with id `id`.
    pub fn get_object(&self, id: &str) -> (r: Option<&ObjectData>)
        ensures
            match r {
                Some(o) => exists|i: int| is_first_with_id(self@.objects, id@, i) && o@ == self@.objects[i],
                None => lacks_id(self@.objects, id@),
            },
    {
        match self.index_of(id) {
            Some(i) => {
                proof {
                    assert(self@.objects[i as int] == self.objects@[i as int]@);
                }
                Some(&self.objects[i])
            },
            None => None,
        }
    }

    /// The id the next object gets: `obj_` and the number of objects.
    pub fn next_id(&self) -> (id: String)
        ensures
            id@ == object_id_text(self@.objects.len()),
    {
        let count = self.objects.len();
        object_id(count as u64)
    }

    /// `<width> × <height>`, as the status bar shows the document size.
    pub fn size_text(&self) -> (t: String)
        ensures
            t@ == decimal(self.width as nat) + " × "@ + decimal(self.height as nat),
    {
        let mut t = String::new();
        push_decimal(&mut t, self.width as u64);
        t.append(" × ");
        push_decimal(&mut t, self.height as u64);
        proof {
            assert(t@ =~= decimal(self.width as nat) + " × "@ + decimal(self.height as nat));
        }
        t
    }

    /// How many objects are of `kind`.
    pub fn object_count_by_kind(&self, kind: &ObjectKind) -> (n: usize)
        ensures
            n == count_of_kind(self@.objects, *kind),
    {
        let ghost objs = self@.objects;
        let ghost pred = |o: ObjectView| o.kind == *kind;
        let len = self.objects.len();
        let mut n: usize = 0;
        let mut i: usize = 0;
        while i < len
            invariant
                len == objs.len(),
                objs == self@.objects,
                pred == (|o: ObjectView| o.kind == *kind),
                i <= len,
                n == objs.take(i as int).filter(pred).len(),
                n <= i,
            decreases len - i,
        {
            proof {
                assert(objs[i as int] == self.objects@[i as int]@);
            }
            if self.objects[i].kind == *kind {
                n = n + 1;
            }
            proof {
                assert(objs.take(i + 1) =~= objs.take(i as int).push(objs[i as int]));
                objs.take(i as int).lemma_filter_push(objs[i as int], pred);
            }
            i = i + 1;
        }
        proof {
            assert(objs.take(len as int) =~= objs);
        }
        n
    }
}

impl Default for Document {
    /// An empty 1920 by 1080 document.
    fn default() -> (d: Self)
        ensures
            d@ == (DocumentView { width: 1920, height: 1080, objects: Seq::empty() }),
    {
        Self::default_1080p()
    }
}

impl Clone for Document {
    /// A copy with the same value.
    fn clone(&self) -> (d: Self)
        ensures
            d@ == self@,
    {
        let n = self.objects.len();
        let mut objects: Vec<ObjectData> = Vec::new();
        let mut i: usize = 0;
        while i < n
            invariant
                n == self.objects@.len(),
                i <= n,
                objects@.len() == i,
                forall|j: int| 0 <= j < i ==> objects@[j]@ == self.objects@[j]@,
            decreases n - i,
        {
            objects.push(self.objects[i].clone());
            i = i + 1;
        }
        let d = Document { width: self.width, height: self.height, objects };
        proof {
            assert(d@.objects =~= self@.objects);
        }
        d
    }
}

/// No two objects share an id.
pub open spec fn distinct_ids(objects: Seq<ObjectView>) -> bool {
    forall|i: int, j: int| 0 <= i < j < objects.len() ==> objects[i].id != objects[j].id
}

/// Raising an object and then lowering it gives back the same order, when ids
/// are distinct and the object is not already on top.
pub proof fn lemma_move_up_then_down(objects: Seq<ObjectView>, id: Seq<char>)
    requires
        distinct_ids(objects),
        first_index(objects, id) matches Some(i) ==> i + 1 < objects.len(),
    ensures
        spec_move_down(spec_move_up(objects, id), id) == objects,
{
    lemma_first_index(objects, id);
    match first_index(objects, id) {
        Some(k) => {
            let moved = swap_entries(objects, k, k + 1);
            assert(is_first_with_id(moved, id, k + 1)) by {
                assert forall|j: int| 0 <= j < k + 1 implies moved[j].id != id by {
                    if j == k {
                        assert(objects[k].id != objects[k + 1].id);
                    }
                }
            }
            lemma_first_index(moved, id);
            assert(swap_entries(moved, k + 1, k) =~= objects);
        },
        None => {},
    }
}

/// Lowering an object and then raising it gives back the same order, when ids
/// are distinct and the object is not already at the bottom.
pub proof fn lemma_move_down_then_up(objects: Seq<ObjectView>, id: Seq<char>)
    requires
        distinct_ids(objects),
        first_index(objects, id) matches Some(i) ==> i > 0,
    ensures
        spec_move_up(spec_move_down(objects, id), id) == objects,
{
    lemma_first_index(objects, id);
    match first_index(objects, id) {
        Some(k) => {
            let moved = swap_entries(objects, k, k - 1);
            assert(is_first_with_id(moved, id, k - 1)) by {
                assert forall|j: int| 0 <= j < k - 1 implies moved[j].id != id by {
                }
            }
            lemma_first_index(moved, id);
            assert(swap_entries(moved, k - 1, k) =~= objects);
        },
        None => {},
    }
}

/// Filtering by a predicate that every element meets keeps every element.
proof fn lemma_filter_all<A>(s: Seq<A>, pred: spec_fn(A) -> bool)
    requires
        forall|i: int| 0 <= i < s.len() ==> pred(s[i]),
    ensures
        s.filter(pred) == s,
    decreases s.len(),
{
    if s.len() > 0 {
        let rest = s.drop_last();
        assert forall|i: int| 0 <= i < rest.len() implies pred(rest[i]) by {
            assert(rest[i] == s[i]);
        }
        lemma_filter_all(rest, pred);
        assert(rest.push(s.last()) =~= s);
        rest.lemma_filter_push(s.last(), pred);
    }
}

/// After removal no object has the removed id, and an object whose id is
/// fresh is removed again exactly: adding it and removing its id gives back
/// the document's objects.
pub proof fn lemma_remove_object(objects: Seq<ObjectView>, id: Seq<char>, added: ObjectView)
    ensures
        lacks_id(without_id(objects, id), id),
        lacks_id(objects, added.id) ==> without_id(objects.push(added), added.id) == objects,
{
    let pred = |o: ObjectView| o.id != id;
    assert forall|j: int| 0 <= j < without_id(objects, id).len() implies without_id(objects, id)[j].id != id by {
        objects.lemma_filter_pred(pred, j);
    }
    if lacks_id(objects, added.id) {
        let fresh = |o: ObjectView| o.id != added.id;
        objects.lemma_filter_push(added, fresh);
        lemma_filter_all(objects, fresh);
    }
}

/// An added object with a fresh id is found again under that id, at the top,
/// and counts once more towards its kind.
pub proof fn lemma_add_object(objects: Seq<ObjectView>, added: ObjectView, kind: ObjectKind)
    ensures
        lacks_id(objects, added.id) ==> first_index(objects.push(added), added.id) == Some(objects.len() as int),
        count_of_kind(objects.push(added), kind) == count_of_kind(objects, kind) + if added.kind == kind {
            1int
        } else {
            0int
        },
{
    let pushed = objects.push(added);
    if lacks_id(objects, added.id) {
        assert(is_first_with_id(pushed, added.id, objects.len() as int)) by {
            assert forall|j: int| 0 <= j < objects.len() implies pushed[j].id != added.id by {
                assert(pushed[j] == objects[j]);
            }
        }
        lemma_first_index(pushed, added.id);
    }
    objects.lemma_filter_push(added, |o: ObjectView| o.kind == kind);
}

/// Every object is counted under exactly one kind.
pub proof fn lemma_kind_counts_total(objects: Seq<ObjectView>)
    ensures
        count_of_kind(objects, ObjectKind::Rectangle) + count_of_kind(objects, ObjectKind::Text)
            + count_of_kind(objects, ObjectKind::Image) + count_of_kind(objects, ObjectKind::Path)
            == objects.len(),
    decreases objects.len(),
{
    if objects.len() > 0 {
        let rest = objects.drop_last();
        lemma_kind_counts_total(rest);
        assert(rest.push(objects.last()) =~= objects);
        rest.lemma_filter_push(objects.last(), |o: ObjectView| o.kind == ObjectKind::Rectangle);
        rest.lemma_filter_push(objects.last(), |o: ObjectView| o.kind == ObjectKind::Text);
        rest.lemma_filter_push(objects.last(), |o: ObjectView| o.kind == ObjectKind::Image);
        rest.lemma_filter_push(objects.last(), |o: ObjectView| o.kind == ObjectKind::Path);
    } else {
        reveal(Seq::filter);
    }
}

/// Hit selection picks the top-most object that is both visible and under
/// the pointer: the hit is such an object with nothing of the kind above
/// it, and there is no hit exactly when no object is both.
pub proof fn lemma_topmost_hit(objects: Seq<ObjectView>, inside: Seq<bool>)
    requires
        objects.len() <= inside.len(),
    ensures
        match spec_topmost_hit(objects, inside) {
            Some(id) => exists|i: int|
                #![trigger objects[i]]
                0 <= i < objects.len() && objects[i].visible && inside[i] && objects[i].id == id
                    && forall|j: int| i < j < objects.len() ==> !(#[trigger] objects[j].visible && inside[j]),
            None => forall|i: int| 0 <= i < objects.len() ==> !(#[trigger] objects[i].visible && inside[i]),
        },
    decreases objects.len(),
{
    if objects.len() > 0 {
        let n = objects.len() - 1;
        let rest = objects.drop_last();
        if objects[n].visible && inside[n] {
            assert(objects.last() == objects[n]);
            assert(spec_topmost_hit(objects, inside) == Some(objects[n].id));
        } else {
            lemma_topmost_hit(rest, inside);
            assert(spec_topmost_hit(objects, inside) == spec_topmost_hit(rest, inside));
            match spec_topmost_hit(rest, inside) {
                Some(id) => {
                    let i = choose|i: int|
                        #![trigger rest[i]]
                        0 <= i < rest.len() && rest[i].visible && inside[i] && rest[i].id == id
                            && forall|j: int| i < j < rest.len() ==> !(#[trigger] rest[j].visible && inside[j]);
                    assert(rest[i] == objects[i]);
                    assert forall|j: int| i < j < objects.len() implies !(#[trigger] objects[j].visible && inside[j]) by {
                        if j < n {
                            assert(rest[j] == objects[j]);
                        }
                    }
                },
                None => {
                    assert forall|i: int| 0 <= i < objects.len() implies !(#[trigger] objects[i].visible && inside[i]) by {
                        if i < n {
                            assert(rest[i] == objects[i]);
                        }
                    }
                },
            }
        }
    }
}

} // verus!
