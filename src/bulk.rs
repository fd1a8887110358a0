use vstd::prelude::*;

verus! {

/// A buffer of elements whose ownership passes to the receiving side of the boundary.
/// It is released by `drop_bytes`, which takes it by value, so it is released once.
pub struct JsBytes<T> {
    data: Vec<T>,
}

impl<T> View for JsBytes<T> {
    type V = Seq<T>;

    closed spec fn view(&self) -> Seq<T> {
        self.data@
    }
}

impl<T> JsBytes<T> {
    /// Packs `bytes` for transfer, keeping every element in order.
    pub fn new(bytes: Vec<T>) -> (r: JsBytes<T>)
        ensures
            r@ == bytes@,
    {
        JsBytes { data: bytes }
    }

    pub fn len(&self) -> (r: usize)
        ensures
            r == self@.len(),
    {
        self.data.len()
    }

    /// The element at `i`.
    pub fn get(&self, i: usize) -> (r: &T)
        requires
            i < self@.len(),
        ensures
            *r == self@[i as int],
    {
        &self.data[i]
    }
}

/// Releases a transferred buffer, handing back the allocation it was built from.
pub fn drop_bytes<T>(bytes: JsBytes<T>) -> (r: Vec<T>)
    ensures
        r@ == bytes@,
{
    bytes.data
}

/// The index vector that a caller's signed values stand for; none if one is negative.
pub fn to_indices(values: &Vec<i32>) -> (r: Option<Vec<usize>>)
    ensures
        r is Some <==> forall|k: int| 0 <= k < values@.len() ==> values@[k] >= 0,
        r is Some ==> r->Some_0@.len() == values@.len() && forall|k: int|
            0 <= k < values@.len() ==> #[trigger] r->Some_0@[k] as int == values@[k] as int,
{
    let mut out: Vec<usize> = Vec::new();
    let mut i: usize = 0;
    while i < values.len()
        invariant
            0 <= i <= values@.len(),
            out@.len() == i,
            forall|k: int| 0 <= k < i ==> values@[k] >= 0,
            forall|k: int| 0 <= k < i ==> #[trigger] out@[k] as int == values@[k] as int,
        decreases values@.len() - i,
    {
        let v = values[i];
        if v < 0 {
            return None;
        }
        out.push(v as usize);
        i = i + 1;
    }
    Some(out)
}

/// A window bound: an empty index vector means the window is open on that side.
pub fn window_bound(indices: Vec<usize>) -> (r: Option<Vec<usize>>)
    ensures
        r is None <==> indices@.len() == 0,
        r is Some ==> r->Some_0@ == indices@,
{
    if indices.len() == 0 {
        None
    } else {
        Some(indices)
    }
}

/// The single slot of the native-caller boundary: at most one open file at a time.
pub struct Session<F> {
    slot: Option<F>,
}

impl<F> Session<F> {
    pub closed spec fn current(&self) -> Option<F> {
        self.slot
    }

    /// An empty slot.
    pub fn new() -> (r: Session<F>)
        ensures
            r.current() is None,
    {
        Session { slot: None }
    }

    /// Puts what opening returned into the slot: the file on success, nothing on failure;
    /// whatever was there before is gone either way. Returns whether a file is now open.
    pub fn open_file(&mut self, opened: Option<F>) -> (r: bool)
        ensures
            final(self).current() == opened,
            r == opened is Some,
    {
        let ok = opened.is_some();
        self.slot = opened;
        ok
    }

    /// Empties the slot; nothing happens when it is already empty.
    pub fn close_file(&mut self)
        ensures
            final(self).current() is None,
    {
        self.slot = None;
    }

    pub fn is_open(&self) -> (r: bool)
        ensures
            r == self.current() is Some,
    {
        self.slot.is_some()
    }

    /// The open file, if any.
    pub fn file(&self) -> (r: Option<&F>)
        ensures
            r is Some <==> self.current() is Some,
            r is Some ==> *r->Some_0 == self.current()->Some_0,
    {
        match &self.slot {
            Some(f) => Some(f),
            None => None,
        }
    }
}

/// Names joined with a comma between each two.
pub open spec fn joined(names: Seq<Seq<char>>) -> Seq<char>
    decreases names.len(),
{
    if names.len() == 0 {
        Seq::empty()
    } else if names.len() == 1 {
        names[0]
    } else {
        joined(names.drop_last()) + seq![','] + names.last()
    }
}

pub open spec fn string_views(v: Seq<String>) -> Seq<Seq<char>> {
    v.map_values(|s: String| s@)
}

/// The names as one comma-separated list, as the native boundary returns them.
pub fn join_names(names: &Vec<String>) -> (r: String)
    ensures
        r@ == joined(string_views(names@)),
{
    let mut out = String::new();
    let mut i: usize = 0;
    assert(string_views(names@.subrange(0, 0)) =~= Seq::<Seq<char>>::empty());
    while i < names.len()
        invariant
            0 <= i <= names@.len(),
            out@ == joined(string_views(names@.subrange(0, i as int))),
        decreases names@.len() - i,
    {
        let ghost next = string_views(names@.subrange(0, i + 1));
        assert(next.drop_last() =~= string_views(names@.subrange(0, i as int)));
        assert(next.last() == names@[i as int]@);
        if i > 0 {
            proof { reveal_strlit(","); }
            out.append(",");
        }
        out.append(names[i].as_str());
        assert(out@ =~= joined(next));
        i = i + 1;
    }
    assert(names@.subrange(0, names@.len() as int) =~= names@);
    out
}

} // verus!
