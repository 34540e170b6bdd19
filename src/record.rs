use vstd::prelude::*;
use crate::text::same_text;

verus! {

/// Whether a channel is private or public on the remote platform.
#[derive(Clone, Copy, Debug, PartialEq, Eq, Structural)]
pub enum Visibility {
    Private,
    Public,
}

/// The word that stands for a visibility in a stored row.
pub open spec fn visibility_word(v: Visibility) -> Seq<char> {
    match v {
        Visibility::Private => seq!['p', 'r', 'i', 'v', 'a', 't', 'e'],
        Visibility::Public => seq!['p', 'u', 'b', 'l', 'i', 'c'],
    }
}

/// The visibility that a stored word stands for, if any.
pub open spec fn visibility_of_word(w: Seq<char>) -> Option<Visibility> {
    if w == visibility_word(Visibility::Private) {
        Some(Visibility::Private)
    } else if w == visibility_word(Visibility::Public) {
        Some(Visibility::Public)
    } else {
        None
    }
}

impl Visibility {
    /// The visibility carried by the remote object's `is_private` flag.
    pub fn from_flag(is_private: bool) -> (r: Visibility)
        ensures
            r == (if is_private { Visibility::Private } else { Visibility::Public }),
    {
        if is_private {
            Visibility::Private
        } else {
            Visibility::Public
        }
    }

    /// The word written for this visibility in a stored row.
    pub fn word(&self) -> (r: String)
        ensures
            r@ == visibility_word(*self),
    {
        match self {
            Visibility::Private => {
                let r = String::from_str("private");
                proof { reveal_strlit("private"); }
                assert(r@ =~= visibility_word(*self));
                r
            },
            Visibility::Public => {
                let r = String::from_str("public");
                proof { reveal_strlit("public"); }
                assert(r@ =~= visibility_word(*self));
                r
            },
        }
    }

    /// Reads a stored visibility word; `None` for any other text.
    pub fn from_word(w: &str) -> (r: Option<Visibility>)
        ensures
            r == visibility_of_word(w@),
    {
        let private = String::from_str("private");
        let public = String::from_str("public");
        proof {
            reveal_strlit("private");
            reveal_strlit("public");
            assert(private@ =~= visibility_word(Visibility::Private));
            assert(public@ =~= visibility_word(Visibility::Public));
        }
        if same_text(w, private.as_str()) {
            Some(Visibility::Private)
        } else if same_text(w, public.as_str()) {
            Some(Visibility::Public)
        } else {
            None
        }
    }
}

/// A channel object as the listing endpoint describes it.
#[derive(Clone, Debug)]
pub struct RemoteChannel {
    pub id: String,
    pub name: String,
    pub is_private: bool,
}

/// One directory entry as it stood when it was fetched.
#[derive(Debug)]
pub struct ChannelRecord {
    pub id: String,
    pub visibility: Visibility,
    pub name: String,
}

/// The mathematical value of a [`ChannelRecord`].
pub struct RecordView {
    pub id: Seq<char>,
    pub visibility: Visibility,
    pub name: Seq<char>,
}

impl View for ChannelRecord {
    type V = RecordView;

    open spec fn view(&self) -> RecordView {
        RecordView { id: self.id@, visibility: self.visibility, name: self.name@ }
    }
}

/// The record that a listed channel becomes.
pub open spec fn record_of_channel(c: RemoteChannel) -> RecordView {
    RecordView {
        id: c.id@,
        visibility: if c.is_private { Visibility::Private } else { Visibility::Public },
        name: c.name@,
    }
}

/// The three fields of a stored row: id, visibility word, name.
pub open spec fn fields_of(r: RecordView) -> Seq<Seq<char>> {
    seq![r.id, visibility_word(r.visibility), r.name]
}

/// The record that three stored fields stand for, if they stand for one.
pub open spec fn record_of_fields(f: Seq<Seq<char>>) -> Option<RecordView> {
    if f.len() == 3 {
        match visibility_of_word(f[1]) {
            Some(v) => Some(RecordView { id: f[0], visibility: v, name: f[2] }),
            None => None,
        }
    } else {
        None
    }
}

/// The views of a sequence of records.
pub open spec fn views_of(rows: Seq<ChannelRecord>) -> Seq<RecordView> {
    rows.map_values(|r: ChannelRecord| r@)
}

impl Clone for ChannelRecord {
    fn clone(&self) -> (r: Self)
        ensures
            r@ == self@,
    {
        ChannelRecord { id: self.id.clone(), visibility: self.visibility, name: self.name.clone() }
    }
}

impl PartialEq for ChannelRecord {
    fn eq(&self, other: &ChannelRecord) -> (r: bool)
        ensures
            r == (self@ == other@),
    {
        self.id == other.id && self.visibility == other.visibility && self.name == other.name
    }
}

impl vstd::std_specs::cmp::PartialEqSpecImpl for ChannelRecord {
    open spec fn obeys_eq_spec() -> bool {
        true
    }

    open spec fn eq_spec(&self, other: &ChannelRecord) -> bool {
        self@ == other@
    }
}

impl ChannelRecord {
    /// Builds a record from its three parts.
    pub fn new(id: String, visibility: Visibility, name: String) -> (r: ChannelRecord)
        ensures
            r@ == (RecordView { id: id@, visibility, name: name@ }),
    {
        ChannelRecord { id, visibility, name }
    }

    /// The record for a listed channel: its id, its visibility from the
    /// private flag, and its name.
    pub fn from_channel(c: &RemoteChannel) -> (r: ChannelRecord)
        ensures
            r@ == record_of_channel(*c),
    {
        ChannelRecord {
            id: c.id.clone(),
            visibility: Visibility::from_flag(c.is_private),
            name: c.name.clone(),
        }
    }

    /// The row written for this record: id, visibility word, name.
    pub fn to_fields(&self) -> (r: Vec<String>)
        ensures
            r.deep_view() == fields_of(self@),
    {
        let mut r: Vec<String> = Vec::new();
        r.push(self.id.clone());
        r.push(self.visibility.word());
        r.push(self.name.clone());
        assert(r.deep_view() =~= fields_of(self@));
        r
    }

    /// Reads a stored row; `None` unless it has exactly three fields and the
    /// second is a visibility word.
    pub fn from_fields(f: &Vec<String>) -> (r: Option<ChannelRecord>)
        ensures
            r matches Some(rec) ==> record_of_fields(f.deep_view()) == Some(rec@),
            r is None ==> record_of_fields(f.deep_view()) is None,
    {
        if f.len() != 3 {
            return None;
        }
        proof {
            assert(f.deep_view()[0] == f@[0]@);
            assert(f.deep_view()[1] == f@[1]@);
            assert(f.deep_view()[2] == f@[2]@);
        }
        match Visibility::from_word(f[1].as_str()) {
            Some(v) => Some(ChannelRecord { id: f[0].clone(), visibility: v, name: f[2].clone() }),
            None => None,
        }
    }
}

} // verus!
