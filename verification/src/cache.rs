use vstd::prelude::*;
use vstd::string::*;
use std::sync::Arc;

verus! {

/// `rusttype::Font`: a parsed font, opaque here.
#[verifier::external_type_specification]
#[verifier::external_body]
pub struct ExFont<'a>(rusttype::Font<'a>);

/// One named asset, shared by all who ask for it.
pub struct Asset<T> {
    pub name: String,
    pub value: Arc<T>,
}

/// `Arc::clone`: another handle to the same value.
#[verifier::external_body]
fn share<T>(value: &Arc<T>) -> (shared: Arc<T>)
    ensures
        shared == *value,
{
    Arc::clone(value)
}

/// Whether the font parser accepts the bytes as a font file.
pub uninterp spec fn font_parses(bytes: Seq<u8>) -> bool;

/// `rusttype::Font::try_from_vec`: the font, or `None` for bytes that the
/// parser does not accept.
#[verifier::external_body]
fn parse_font(bytes: Vec<u8>) -> (font: Option<rusttype::Font<'static>>)
    ensures
        font is Some <==> font_parses(bytes@),
{
    rusttype::Font::try_from_vec(bytes)
}

/// No two entries carry the same name.
pub open spec fn names_differ<T>(entries: Seq<Asset<T>>) -> bool {
    forall|i: int, j: int|
        0 <= i < entries.len() && 0 <= j < entries.len() && i != j ==> entries[i].name@
            != entries[j].name@
}

/// The entries as a map from name to value.
pub open spec fn table<T>(entries: Seq<Asset<T>>) -> Map<Seq<char>, Arc<T>>
    decreases entries.len(),
{
    if entries.len() == 0 {
        Map::empty()
    } else {
        table(entries.drop_last()).insert(entries.last().name@, entries.last().value)
    }
}

proof fn lemma_table_holds<T>(entries: Seq<Asset<T>>, i: int)
    requires
        names_differ(entries),
        0 <= i < entries.len(),
    ensures
        table(entries).contains_key(entries[i].name@),
        table(entries)[entries[i].name@] == entries[i].value,
    decreases entries.len(),
{
    if i < entries.len() - 1 {
        lemma_table_holds(entries.drop_last(), i);
    }
}

proof fn lemma_table_lacks<T>(entries: Seq<Asset<T>>, name: Seq<char>)
    requires
        forall|i: int| 0 <= i < entries.len() ==> entries[i].name@ != name,
    ensures
        !table(entries).contains_key(name),
    decreases entries.len(),
{
    if entries.len() > 0 {
        lemma_table_lacks(entries.drop_last(), name);
    }
}

proof fn lemma_table_update<T>(entries: Seq<Asset<T>>, i: int, asset: Asset<T>)
    requires
        names_differ(entries),
        0 <= i < entries.len(),
        asset.name@ == entries[i].name@,
    ensures
        names_differ(entries.update(i, asset)),
        table(entries.update(i, asset)) =~= table(entries).insert(asset.name@, asset.value),
    decreases entries.len(),
{
    let after = entries.update(i, asset);
    if i == entries.len() - 1 {
        assert(after.drop_last() =~= entries.drop_last());
    } else {
        lemma_table_update(entries.drop_last(), i, asset);
        assert(after.drop_last() =~= entries.drop_last().update(i, asset));
        assert(after.last() == entries.last());
        assert(entries.last().name@ != entries[i].name@);
    }
}

fn find<T>(entries: &Vec<Asset<T>>, name: &str) -> (found: Option<usize>)
    ensures
        match found {
            Some(i) => i < entries@.len() && entries@[i as int].name@ == name@,
            None => forall|i: int| 0 <= i < entries@.len() ==> entries@[i].name@ != name@,
        },
{
    let wanted = String::from_str(name);
    let mut i: usize = 0;
    while i < entries.len()
        invariant
            i <= entries@.len(),
            wanted@ == name@,
            forall|j: int| 0 <= j < i ==> entries@[j].name@ != name@,
        decreases entries@.len() - i,
    {
        if entries[i].name == wanted {
            return Some(i);
        }
        i = i + 1;
    }
    None
}

fn lookup<T>(entries: &Vec<Asset<T>>, name: &str) -> (found: Option<Arc<T>>)
    requires
        names_differ(entries@),
    ensures
        match found {
            Some(value) => table(entries@).contains_key(name@) && value == table(entries@)[name@],
            None => !table(entries@).contains_key(name@),
        },
{
    match find(entries, name) {
        Some(i) => {
            proof {
                lemma_table_holds(entries@, i as int);
            }
            Some(share(&entries[i].value))
        },
        None => {
            proof {
                lemma_table_lacks(entries@, name@);
            }
            None
        },
    }
}

fn store<T>(entries: &mut Vec<Asset<T>>, name: String, value: T) -> (shared: Arc<T>)
    requires
        names_differ(old(entries)@),
    ensures
        names_differ(final(entries)@),
        table(final(entries)@) == table(old(entries)@).insert(name@, shared),
        shared == value,
{
    let found = find(entries, name.as_str());
    let held = Arc::new(value);
    let shared = share(&held);
    let asset = Asset { name, value: held };
    match found {
        Some(i) => {
            proof {
                lemma_table_update(entries@, i as int, asset);
            }
            entries.set(i, asset);
        },
        None => {
            proof {
                assert(entries@.push(asset).drop_last() =~= entries@);
            }
            entries.push(asset);
        },
    }
    shared
}

/// A store of image bytes and of parsed fonts, each kept under the name it
/// was first asked for by. It grows as names are filled in and never forgets
/// one. What it hands out is a handle to the one value it holds, not a copy.
pub struct AssetCache {
    image_cache: Vec<Asset<Vec<u8>>>,
    font_cache: Vec<Asset<rusttype::Font<'static>>>,
}

impl AssetCache {
    pub closed spec fn wf(&self) -> bool {
        names_differ(self.image_cache@) && names_differ(self.font_cache@)
    }

    /// The images held, by name.
    pub closed spec fn images(&self) -> Map<Seq<char>, Seq<u8>> {
        Map::new(
            |name: Seq<char>| table(self.image_cache@).contains_key(name),
            |name: Seq<char>| table(self.image_cache@)[name]@,
        )
    }

    /// The fonts held, by name.
    pub closed spec fn fonts(&self) -> Map<Seq<char>, Arc<rusttype::Font<'static>>> {
        table(self.font_cache@)
    }

    /// An empty cache.
    pub fn new() -> (cache: Self)
        ensures
            cache.wf(),
            cache.images() == Map::<Seq<char>, Seq<u8>>::empty(),
            cache.fonts() == Map::<Seq<char>, Arc<rusttype::Font<'static>>>::empty(),
    {
        let cache = AssetCache { image_cache: Vec::new(), font_cache: Vec::new() };
        proof {
            assert(cache.images() =~= Map::<Seq<char>, Seq<u8>>::empty());
        }
        cache
    }

    /// The bytes of a cached image; `None` is a miss, after which the caller
    /// reads the bytes from storage and hands them to `put_image`.
    pub fn get_image(&self, name: &str) -> (hit: Option<Arc<Vec<u8>>>)
        requires
            self.wf(),
        ensures
            match hit {
                Some(bytes) => self.images().contains_key(name@) && bytes@ == self.images()[name@],
                None => !self.images().contains_key(name@),
            },
    {
        lookup(&self.image_cache, name)
    }

    /// Fills in an image after a miss and hands out the buffer now held. Of
    /// two fills of one name the later stays.
    pub fn put_image(&mut self, name: String, bytes: Vec<u8>) -> (shared: Arc<Vec<u8>>)
        requires
            old(self).wf(),
        ensures
            final(self).wf(),
            final(self).images() == old(self).images().insert(name@, bytes@),
            final(self).fonts() == old(self).fonts(),
            shared@ == bytes@,
    {
        let shared = store(&mut self.image_cache, name, bytes);
        proof {
            assert(self.images() =~= old(self).images().insert(name@, bytes@));
        }
        shared
    }

    /// A cached font; `None` is a miss, after which the caller reads the font
    /// file from storage and hands its bytes to `put_font`.
    pub fn get_font(&self, name: &str) -> (hit: Option<Arc<rusttype::Font<'static>>>)
        requires
            self.wf(),
        ensures
            match hit {
                Some(font) => self.fonts().contains_key(name@) && font == self.fonts()[name@],
                None => !self.fonts().contains_key(name@),
            },
    {
        lookup(&self.font_cache, name)
    }

    /// Parses a font file after a miss, fills the font in and hands it out.
    /// Bytes that are no font change nothing and give `None`.
    pub fn put_font(&mut self, name: String, bytes: Vec<u8>) -> (shared: Option<
        Arc<rusttype::Font<'static>>,
    >)
        requires
            old(self).wf(),
        ensures
            final(self).wf(),
            final(self).images() == old(self).images(),
            shared is Some <==> font_parses(bytes@),
            match shared {
                Some(font) => final(self).fonts() == old(self).fonts().insert(name@, font),
                None => final(self).fonts() == old(self).fonts(),
            },
    {
        match parse_font(bytes) {
            Some(font) => Some(store(&mut self.font_cache, name, font)),
            None => None,
        }
    }

    /// Once a name is filled in it is a hit with the bytes it was filled
    /// with, so storage is not read for it again; and a fill changes what is
    /// held under no other name.
    pub proof fn filled_is_hit(before: Self, after: Self, name: Seq<char>, bytes: Seq<u8>)
        requires
            after.images() == before.images().insert(name, bytes),
        ensures
            after.images().contains_key(name),
            after.images()[name] == bytes,
            forall|other: Seq<char>|
                other != name ==> (after.images().contains_key(other)
                    <==> before.images().contains_key(other)),
            forall|other: Seq<char>|
                other != name && before.images().contains_key(other) ==> after.images()[other]
                    == before.images()[other],
    {
    }
}

impl Default for AssetCache {
    fn default() -> (cache: Self)
        ensures
            cache.wf(),
            cache.images() == Map::<Seq<char>, Seq<u8>>::empty(),
            cache.fonts() == Map::<Seq<char>, Arc<rusttype::Font<'static>>>::empty(),
    {
        AssetCache::new()
    }
}

} // verus!
