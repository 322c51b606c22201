use vstd::prelude::*;

use crate::metadata::{ContainerFormat, Metadata, MetadataView};
use crate::naming::{file_name, file_name_of};

verus! {

/// A conversion still to be done: a source file, the name of the MP3 file
/// that it becomes, and the container that it comes in.
#[derive(Debug)]
pub struct ConversionJob<S> {
    pub source: S,
    pub file_name: String,
    pub container_format: ContainerFormat,
}

/// The jobs whose outputs share one album directory.
#[derive(Debug)]
pub struct AlbumGroup<S> {
    pub album_artist: String,
    pub album: String,
    pub jobs: Vec<ConversionJob<S>>,
}

/// The conversions of a run, grouped by album artist and album.
#[derive(Debug)]
pub struct Plan<S> {
    groups: Vec<AlbumGroup<S>>,
}

pub struct JobView<S> {
    pub source: S,
    pub file_name: Seq<char>,
    pub container_format: ContainerFormat,
}

pub struct GroupView<S> {
    pub album_artist: Seq<char>,
    pub album: Seq<char>,
    pub jobs: Seq<JobView<S>>,
}

impl<S> View for ConversionJob<S> {
    type V = JobView<S>;

    open spec fn view(&self) -> JobView<S> {
        JobView {
            source: self.source,
            file_name: self.file_name@,
            container_format: self.container_format,
        }
    }
}

impl<S> View for AlbumGroup<S> {
    type V = GroupView<S>;

    open spec fn view(&self) -> GroupView<S> {
        GroupView {
            album_artist: self.album_artist@,
            album: self.album@,
            jobs: self.jobs@.map_values(|j: ConversionJob<S>| j@),
        }
    }
}

impl<S> View for Plan<S> {
    type V = Seq<GroupView<S>>;

    closed spec fn view(&self) -> Seq<GroupView<S>> {
        self.groups@.map_values(|g: AlbumGroup<S>| g@)
    }
}

pub open spec fn has_key<S>(g: GroupView<S>, album_artist: Seq<char>, album: Seq<char>) -> bool {
    g.album_artist == album_artist && g.album == album
}

/// The position of the group of an album, when the plan has one.
pub open spec fn group_index<S>(p: Seq<GroupView<S>>, album_artist: Seq<char>, album: Seq<char>) -> Option<int>
    decreases p.len(),
{
    if p.len() == 0 {
        None
    } else if has_key(p[0], album_artist, album) {
        Some(0)
    } else {
        match group_index(p.drop_first(), album_artist, album) {
            Some(i) => Some(i + 1),
            None => None,
        }
    }
}

pub open spec fn has_file<S>(jobs: Seq<JobView<S>>, name: Seq<char>) -> bool {
    exists|j: int| 0 <= j < jobs.len() && jobs[j].file_name == name
}

/// Each album has one group, each group a job, and no two jobs of a group
/// write the same file.
pub open spec fn well_formed<S>(p: Seq<GroupView<S>>) -> bool {
    &&& forall|i: int, k: int|
        0 <= i < k < p.len() ==> !has_key(p[k], p[i].album_artist, p[i].album)
    &&& forall|i: int| 0 <= i < p.len() ==> #[trigger] p[i].jobs.len() > 0
    &&& forall|i: int, a: int, b: int|
        0 <= i < p.len() && 0 <= a < b < p[i].jobs.len() ==> p[i].jobs[a].file_name
            != p[i].jobs[b].file_name
}

/// The plan after a song is offered to it: unchanged when the song's output
/// already exists, or when its group already converts a file to that name;
/// else with the job added to the song's group, a new group at the end for
/// an album not seen before.
pub open spec fn add_spec<S>(
    p: Seq<GroupView<S>>,
    source: S,
    song: MetadataView,
    destination_exists: bool,
) -> Seq<GroupView<S>> {
    let name = file_name_of(song.disc, song.track, song.title);
    let job = JobView { source, file_name: name, container_format: song.container_format };
    if destination_exists {
        p
    } else {
        match group_index(p, song.album_artist, song.album) {
            Some(i) => if has_file(p[i].jobs, name) {
                p
            } else {
                p.update(i, GroupView { jobs: p[i].jobs.push(job), ..p[i] })
            },
            None => p.push(
                GroupView { album_artist: song.album_artist, album: song.album, jobs: seq![job] },
            ),
        }
    }
}

/// The plan made from songs offered one after another to an empty plan,
/// each with whether its output already exists.
pub open spec fn planned<S>(items: Seq<(S, MetadataView, bool)>) -> Seq<GroupView<S>>
    decreases items.len(),
{
    if items.len() == 0 {
        Seq::empty()
    } else {
        let last = items.last();
        add_spec(planned(items.drop_last()), last.0, last.1, last.2)
    }
}

proof fn lemma_group_index<S>(p: Seq<GroupView<S>>, album_artist: Seq<char>, album: Seq<char>, k: int)
    requires
        0 <= k <= p.len(),
        forall|j: int| 0 <= j < k ==> !has_key(#[trigger] p[j], album_artist, album),
    ensures
        k < p.len() && has_key(p[k], album_artist, album) ==> group_index(p, album_artist, album)
            == Some(k),
        k == p.len() ==> group_index(p, album_artist, album) is None,
    decreases k,
{
    if k > 0 {
        lemma_group_index(p.drop_first(), album_artist, album, k - 1);
    }
}

proof fn lemma_group_index_found<S>(p: Seq<GroupView<S>>, album_artist: Seq<char>, album: Seq<char>)
    ensures
        group_index(p, album_artist, album) matches Some(i) ==> 0 <= i < p.len() && has_key(
            p[i],
            album_artist,
            album,
        ),
        group_index(p, album_artist, album) is None ==> forall|j: int|
            0 <= j < p.len() ==> !has_key(#[trigger] p[j], album_artist, album),
    decreases p.len(),
{
    if p.len() > 0 {
        lemma_group_index_found(p.drop_first(), album_artist, album);
        if group_index(p, album_artist, album) is None {
            assert forall|j: int| 0 <= j < p.len() implies !has_key(
                #[trigger] p[j],
                album_artist,
                album,
            ) by {
                if j > 0 {
                    assert(p[j] == p.drop_first()[j - 1]);
                }
            }
        }
    }
}

/// Songs whose outputs all exist already give an empty plan: a second run
/// over the same tree converts nothing.
pub proof fn lemma_existing_outputs_plan_nothing<S>(items: Seq<(S, MetadataView, bool)>)
    requires
        forall|i: int| 0 <= i < items.len() ==> (#[trigger] items[i]).2,
    ensures
        planned(items) == Seq::<GroupView<S>>::empty(),
    decreases items.len(),
{
    if items.len() > 0 {
        lemma_existing_outputs_plan_nothing(items.drop_last());
    }
}

/// Offering a song to a well-formed plan keeps it well formed.
pub proof fn lemma_add_well_formed<S>(
    p: Seq<GroupView<S>>,
    source: S,
    song: MetadataView,
    destination_exists: bool,
)
    requires
        well_formed(p),
    ensures
        well_formed(add_spec(p, source, song, destination_exists)),
{
    lemma_group_index_found(p, song.album_artist, song.album);
    let name = file_name_of(song.disc, song.track, song.title);
    let q = add_spec(p, source, song, destination_exists);
    if !destination_exists {
        match group_index(p, song.album_artist, song.album) {
            Some(i) => {
                if !has_file(p[i].jobs, name) {
                    let jobs = q[i].jobs;
                    assert forall|a: int, b: int|
                        0 <= a < b < jobs.len() implies jobs[a].file_name
                        != jobs[b].file_name by {
                        if b == jobs.len() - 1 {
                            assert(jobs[b].file_name == name);
                            assert(jobs[a] == p[i].jobs[a]);
                        }
                    }
                    assert(q[i].jobs.len() > 0);
                }
            },
            None => {
                assert forall|i: int, k: int|
                    0 <= i < k < q.len() implies !has_key(q[k], q[i].album_artist, q[i].album) by {
                    if k == q.len() - 1 {
                        assert(!has_key(p[i], song.album_artist, song.album));
                    }
                }
            },
        }
    }
}

/// Every plan made by offering songs one after another is well formed.
pub proof fn lemma_planned_well_formed<S>(items: Seq<(S, MetadataView, bool)>)
    ensures
        well_formed(planned(items)),
    decreases items.len(),
{
    if items.len() > 0 {
        lemma_planned_well_formed(items.drop_last());
        let last = items.last();
        lemma_add_well_formed(planned(items.drop_last()), last.0, last.1, last.2);
    }
}

impl<S> Plan<S> {
    pub open spec fn well_formed(&self) -> bool {
        well_formed(self@)
    }

    /// A plan with no jobs.
    pub fn new() -> (r: Self)
        ensures
            r@ == Seq::<GroupView<S>>::empty(),
            r.well_formed(),
    {
        let r = Plan { groups: Vec::new() };
        assert(r@ =~= Seq::<GroupView<S>>::empty());
        r
    }

    /// The groups of the plan, in the order in which their albums were
    /// first seen.
    pub fn groups(&self) -> (r: &Vec<AlbumGroup<S>>)
        ensures
            r@.map_values(|g: AlbumGroup<S>| g@) == self@,
    {
        &self.groups
    }

    fn find_group(&self, album_artist: &String, album: &String) -> (r: Option<usize>)
        ensures
            r matches Some(i) ==> group_index(self@, album_artist@, album@) == Some(i as int),
            r is None ==> group_index(self@, album_artist@, album@) is None,
    {
        let n = self.groups.len();
        let mut i: usize = 0;
        while i < n
            invariant
                n == self@.len(),
                i <= n,
                forall|j: int| 0 <= j < i ==> !has_key(#[trigger] self@[j], album_artist@, album@),
            decreases n - i,
        {
            let g = &self.groups[i];
            if g.album_artist == *album_artist && g.album == *album {
                proof {
                    lemma_group_index(self@, album_artist@, album@, i as int);
                }
                return Some(i);
            }
            i = i + 1;
        }
        proof {
            lemma_group_index(self@, album_artist@, album@, n as int);
        }
        None
    }

    /// Offers a song to the plan, with whether its output file already
    /// exists; the plan takes a job for it only where work is left to do.
    pub fn add(&mut self, source: S, song: Metadata, destination_exists: bool)
        requires
            old(self).well_formed(),
        ensures
            final(self).well_formed(),
            final(self)@ == add_spec(old(self)@, source, song@, destination_exists),
    {
        proof {
            lemma_add_well_formed(self@, source, song@, destination_exists);
        }
        if destination_exists {
            return;
        }
        let name = file_name(&song);
        match self.find_group(&song.album_artist, &song.album) {
            Some(i) => {
                proof {
                    lemma_group_index_found(self@, song.album_artist@, song.album@);
                    assert(self@[i as int] == self.groups@[i as int]@);
                }
                let mut found = false;
                let m = self.groups[i].jobs.len();
                let mut j: usize = 0;
                while j < m && !found
                    invariant
                        i < self@.len(),
                        i < self.groups@.len(),
                        self@[i as int] == self.groups@[i as int]@,
                        m == self@[i as int].jobs.len(),
                        j <= m,
                        found ==> has_file(self@[i as int].jobs, name@),
                        !found ==> forall|k: int|
                            0 <= k < j ==> self@[i as int].jobs[k].file_name != name@,
                    decreases m - j, if found { 0int } else { 1int },
                {
                    if self.groups[i].jobs[j].file_name == name {
                        assert(self@[i as int].jobs[j as int] == self.groups@[i as int].jobs@[j as int]@);
                        found = true;
                    } else {
                        j = j + 1;
                    }
                }
                if found {
                    return;
                }
                let ghost before = self@;
                let mut g = self.groups.remove(i);
                g.jobs.push(ConversionJob { source, file_name: name, container_format: song.container_format });
                self.groups.insert(i, g);
                assert(g@.jobs =~= before[i as int].jobs.push(
                    JobView { source, file_name: name@, container_format: song.container_format },
                ));
                assert(self@ =~= add_spec(before, source, song@, destination_exists));
            },
            None => {
                let ghost before = self@;
                let mut jobs = Vec::new();
                jobs.push(ConversionJob { source, file_name: name, container_format: song.container_format });
                let g = AlbumGroup { album_artist: song.album_artist, album: song.album, jobs };
                self.groups.push(g);
                assert(g@.jobs =~= seq![
                    JobView { source, file_name: name@, container_format: song.container_format },
                ]);
                assert(self@ =~= add_spec(before, source, song@, destination_exists));
            },
        }
    }
}

} // verus!
