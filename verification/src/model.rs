use vstd::prelude::*;

verus! {

/// A closed range of source milliseconds cut out of a track.
#[derive(Clone, Copy, Debug, PartialEq, Eq)]
pub struct TimeRange {
    pub start_ms: u32,
    pub end_ms: u32,
}

/// A range of a track played `play_count` times in total.
#[derive(Clone, Copy, Debug, PartialEq, Eq)]
pub struct LoopRange {
    pub start_ms: u32,
    pub end_ms: u32,
    pub play_count: u32,
}

/// The edit a queue row plays with: sections cut out and an optional loop.
#[derive(Debug)]
pub struct TrackEdit {
    pub cuts: Vec<TimeRange>,
    pub loop_range: Option<LoopRange>,
}

/// The mathematical value of a [`TrackEdit`].
pub struct TrackEditView {
    pub cuts: Seq<TimeRange>,
    pub loop_range: Option<LoopRange>,
}

impl View for TrackEdit {
    type V = TrackEditView;

    open spec fn view(&self) -> TrackEditView {
        TrackEditView { cuts: self.cuts@, loop_range: self.loop_range }
    }
}

/// The value of an optional edit.
pub open spec fn edit_view(edit: Option<TrackEdit>) -> Option<TrackEditView> {
    match edit {
        Some(e) => Some(e@),
        None => None,
    }
}

impl Clone for TrackEdit {
    fn clone(&self) -> (copy: Self)
        ensures
            copy@ == self@,
    {
        let mut cuts: Vec<TimeRange> = Vec::new();
        let mut i: usize = 0;
        while i < self.cuts.len()
            invariant
                i <= self.cuts.len(),
                cuts@ == self.cuts@.subrange(0, i as int),
            decreases self.cuts.len() - i,
        {
            cuts.push(self.cuts[i]);
            i = i + 1;
        }
        assert(cuts@ =~= self.cuts@);
        TrackEdit { cuts, loop_range: self.loop_range }
    }
}

/// How the queue continues past its current row.
#[derive(Clone, Copy, Debug, PartialEq, Eq, Structural)]
pub enum RepeatMode {
    Off,
    Track,
    Context,
}

/// One row of a queue, a browse list or the listening history.
#[derive(Debug)]
pub struct TrackRef {
    pub id: String,
    pub uri: String,
    pub name: String,
    pub artist_names: Vec<String>,
    pub artist_ids: Vec<String>,
    pub artist_id: String,
    pub album_id: String,
    pub album_name: String,
    pub cover_url: String,
    pub duration_ms: u32,
    pub play_count: Option<u64>,
    pub added_at: Option<i64>,
    pub unavailable: bool,
    pub unavailable_reason: Option<String>,
    pub cached: bool,
    pub context: String,
    pub effective_edit: Option<TrackEdit>,
}

/// A copy of `strings`, element for element.
pub fn clone_strings(strings: &Vec<String>) -> (copy: Vec<String>)
    ensures
        copy@ == strings@,
{
    let mut copy: Vec<String> = Vec::new();
    let mut i: usize = 0;
    while i < strings.len()
        invariant
            i <= strings.len(),
            copy@ == strings@.subrange(0, i as int),
        decreases strings.len() - i,
    {
        copy.push(strings[i].clone());
        i = i + 1;
    }
    assert(copy@ =~= strings@);
    copy
}

/// A copy of an optional string.
pub fn clone_optional_string(value: &Option<String>) -> (copy: Option<String>)
    ensures
        copy == *value,
{
    match value {
        Some(text) => Some(text.clone()),
        None => None,
    }
}

/// The mathematical value of a [`TrackRef`]: every text as its characters.
pub struct TrackRefView {
    pub id: Seq<char>,
    pub uri: Seq<char>,
    pub name: Seq<char>,
    pub artist_names: Seq<Seq<char>>,
    pub artist_ids: Seq<Seq<char>>,
    pub artist_id: Seq<char>,
    pub album_id: Seq<char>,
    pub album_name: Seq<char>,
    pub cover_url: Seq<char>,
    pub duration_ms: u32,
    pub play_count: Option<u64>,
    pub added_at: Option<i64>,
    pub unavailable: bool,
    pub unavailable_reason: Option<Seq<char>>,
    pub cached: bool,
    pub context: Seq<char>,
    pub effective_edit: Option<TrackEditView>,
}

/// The characters of an optional text.
pub open spec fn optional_text(value: Option<String>) -> Option<Seq<char>> {
    match value {
        Some(text) => Some(text@),
        None => None,
    }
}

impl View for TrackRef {
    type V = TrackRefView;

    open spec fn view(&self) -> TrackRefView {
        TrackRefView {
            id: self.id@,
            uri: self.uri@,
            name: self.name@,
            artist_names: self.artist_names.deep_view(),
            artist_ids: self.artist_ids.deep_view(),
            artist_id: self.artist_id@,
            album_id: self.album_id@,
            album_name: self.album_name@,
            cover_url: self.cover_url@,
            duration_ms: self.duration_ms,
            play_count: self.play_count,
            added_at: self.added_at,
            unavailable: self.unavailable,
            unavailable_reason: optional_text(self.unavailable_reason),
            cached: self.cached,
            context: self.context@,
            effective_edit: edit_view(self.effective_edit),
        }
    }
}

impl Clone for TrackRef {
    fn clone(&self) -> (copy: Self)
        ensures
            copy@ == self@,
    {
        let artist_names = clone_strings(&self.artist_names);
        let artist_ids = clone_strings(&self.artist_ids);
        assert(artist_names.deep_view() =~= self.artist_names.deep_view());
        assert(artist_ids.deep_view() =~= self.artist_ids.deep_view());
        TrackRef {
            id: self.id.clone(),
            uri: self.uri.clone(),
            name: self.name.clone(),
            artist_names,
            artist_ids,
            artist_id: self.artist_id.clone(),
            album_id: self.album_id.clone(),
            album_name: self.album_name.clone(),
            cover_url: self.cover_url.clone(),
            duration_ms: self.duration_ms,
            play_count: self.play_count,
            added_at: self.added_at,
            unavailable: self.unavailable,
            unavailable_reason: clone_optional_string(&self.unavailable_reason),
            cached: self.cached,
            context: self.context.clone(),
            effective_edit: match &self.effective_edit {
                Some(edit) => Some(edit.clone()),
                None => None,
            },
        }
    }
}

impl TrackRef {
    /// An empty row: every text empty, every number zero, every flag off.
    pub fn empty() -> (track: TrackRef)
        ensures
            track.id@.len() == 0,
            track.uri@.len() == 0,
            track.name@.len() == 0,
            track.artist_names@.len() == 0,
            track.artist_ids@.len() == 0,
            track.artist_id@.len() == 0,
            track.album_id@.len() == 0,
            track.album_name@.len() == 0,
            track.cover_url@.len() == 0,
            track.duration_ms == 0,
            track.play_count is None,
            track.added_at is None,
            !track.unavailable,
            track.unavailable_reason is None,
            !track.cached,
            track.context@.len() == 0,
            track.effective_edit is None,
    {
        TrackRef {
            id: String::new(),
            uri: String::new(),
            name: String::new(),
            artist_names: Vec::new(),
            artist_ids: Vec::new(),
            artist_id: String::new(),
            album_id: String::new(),
            album_name: String::new(),
            cover_url: String::new(),
            duration_ms: 0,
            play_count: None,
            added_at: None,
            unavailable: false,
            unavailable_reason: None,
            cached: false,
            context: String::new(),
            effective_edit: None,
        }
    }
}

impl Default for TrackRef {
    fn default() -> (track: TrackRef)
        ensures
            track.id@.len() == 0,
            track.uri@.len() == 0,
            track.name@.len() == 0,
            track.artist_names@.len() == 0,
            track.duration_ms == 0,
            !track.unavailable,
            !track.cached,
            track.context@.len() == 0,
            track.effective_edit is None,
            track.play_count is None,
            track.added_at is None,
            track.unavailable_reason is None,
    {
        TrackRef::empty()
    }
}

/// An artist a browse surface can open.
#[derive(Debug)]
pub struct ArtistRef {
    pub id: String,
    pub uri: String,
    pub name: String,
    pub portrait_url: Option<String>,
}

} // verus!
