use vstd::prelude::*;

verus! {

/// One auxiliary record attached to a message row: a small integer naming
/// what the text holds, and the text itself.
pub struct MsgExtraString {
    /// What the text holds: 1 names the sender, 4 an image path.
    pub kind: i32,
    /// The text.
    pub message: String,
}

/// The decoded `BytesExtra` column of a message row: auxiliary records in
/// the order they were stored.
pub struct MsgBytesExtra {
    /// The auxiliary records.
    pub string: Vec<MsgExtraString>,
}

impl MsgBytesExtra {
    /// A column with no auxiliary records.
    pub fn new() -> (r: MsgBytesExtra)
        ensures
            r.string@.len() == 0,
    {
        MsgBytesExtra { string: Vec::new() }
    }

    /// The index of the first record of the given kind.
    fn find_kind(&self, kind: i32) -> (r: Option<usize>)
        ensures
            r matches Some(i) ==> i < self.string@.len() && self.string@[i as int].kind == kind
                && (forall|j: int| 0 <= j < i ==> (#[trigger] self.string@[j]).kind != kind),
            r is None ==> forall|j: int|
                0 <= j < self.string@.len() ==> (#[trigger] self.string@[j]).kind != kind,
    {
        let n = self.string.len();
        let mut i: usize = 0;
        while i < n
            invariant
                n == self.string@.len(),
                i <= n,
                forall|j: int| 0 <= j < i ==> (#[trigger] self.string@[j]).kind != kind,
            decreases n - i,
        {
            if self.string[i].kind == kind {
                return Some(i);
            }
            i = i + 1;
        }
        None
    }

    /// Removes and returns the first record naming the sender (kind 1), if
    /// any; the other records keep their order.
    pub fn pop_sender(&mut self) -> (r: Option<String>)
        ensures
            (r is Some) == (exists|j: int|
                0 <= j < old(self).string@.len() && (#[trigger] old(self).string@[j]).kind == 1),
            r matches Some(m) ==> exists|i: int|
                {
                    &&& 0 <= i < old(self).string@.len()
                    &&& (#[trigger] old(self).string@[i]).kind == 1
                    &&& forall|j: int| 0 <= j < i ==> (#[trigger] old(self).string@[j]).kind != 1
                    &&& m@ == old(self).string@[i].message@
                    &&& final(self).string@ == old(self).string@.remove(i)
                },
            r is None ==> final(self).string@ == old(self).string@,
    {
        self.pop_kind(1)
    }

    /// Removes and returns the first record naming a locally stored image
    /// path (kind 4), if any; the other records keep their order.
    pub fn pop_image_path(&mut self) -> (r: Option<String>)
        ensures
            (r is Some) == (exists|j: int|
                0 <= j < old(self).string@.len() && (#[trigger] old(self).string@[j]).kind == 4),
            r matches Some(m) ==> exists|i: int|
                {
                    &&& 0 <= i < old(self).string@.len()
                    &&& (#[trigger] old(self).string@[i]).kind == 4
                    &&& forall|j: int| 0 <= j < i ==> (#[trigger] old(self).string@[j]).kind != 4
                    &&& m@ == old(self).string@[i].message@
                    &&& final(self).string@ == old(self).string@.remove(i)
                },
            r is None ==> final(self).string@ == old(self).string@,
    {
        self.pop_kind(4)
    }

    /// Removes and returns the first record of the given kind, if any.
    fn pop_kind(&mut self, kind: i32) -> (r: Option<String>)
        ensures
            (r is Some) == (exists|j: int|
                0 <= j < old(self).string@.len() && (#[trigger] old(self).string@[j]).kind
                    == kind),
            r matches Some(m) ==> exists|i: int|
                {
                    &&& 0 <= i < old(self).string@.len()
                    &&& (#[trigger] old(self).string@[i]).kind == kind
                    &&& forall|j: int|
                        0 <= j < i ==> (#[trigger] old(self).string@[j]).kind != kind
                    &&& m@ == old(self).string@[i].message@
                    &&& final(self).string@ == old(self).string@.remove(i)
                },
            r is None ==> final(self).string@ == old(self).string@,
    {
        match self.find_kind(kind) {
            Some(i) => {
                let item = self.string.remove(i);
                Some(item.message)
            },
            None => None,
        }
    }

    /// The text of the first record holding an image path (kind 4), or the
    /// empty string when no record does.
    pub fn get_image_path(&self) -> (r: String)
        ensures
            (exists|j: int| 0 <= j < self.string@.len() && (#[trigger] self.string@[j]).kind == 4)
                ==> exists|i: int|
                {
                    &&& 0 <= i < self.string@.len()
                    &&& (#[trigger] self.string@[i]).kind == 4
                    &&& forall|j: int| 0 <= j < i ==> (#[trigger] self.string@[j]).kind != 4
                    &&& r@ == self.string@[i].message@
                },
            !(exists|j: int| 0 <= j < self.string@.len() && (#[trigger] self.string@[j]).kind == 4)
                ==> r@ == Seq::<char>::empty(),
    {
        match self.find_kind(4) {
            Some(i) => {
                let item = &self.string[i];
                item.message.clone()
            },
            None => String::new(),
        }
    }
}

} // verus!
