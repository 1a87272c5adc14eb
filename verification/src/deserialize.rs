//! Serialize and deserialize interfaces: the bridge between a connection's
//! schema slots and in-memory database files.
//!
//! A [`Connection`] here is the verified model of what the host engine
//! maintains per connection: the relation from schema names to file slots.
//! A slot either still runs on the engine's own default in-memory driver —
//! its bytes are carried as the image the engine's page backup would
//! produce for it — or it is hooked: a [`HookedFile`] is installed and the
//! engine reaches the bytes only through the verified entry points of
//! [`crate::hooked_file`].  The boundary glue performs the engine calls
//! (detach, file-control, the page-backup stepping) and keeps the real
//! connection in step with this model; every decision stands here.
//!
//! [`BorrowingConnection`] wraps a connection for the attachments that
//! borrow caller-owned memory, so their lifetime cannot outlive the buffer
//! they were built from; it also offers the reference-counted,
//! copying-free serialization whose outstanding references make every
//! write fail read-only.

use vstd::prelude::*;

use crate::codes::FileError;
use crate::codes::DEFAULT_SIZE_MAX;
use crate::hooked_file::FileView;
use crate::hooked_file::HookedFile;
use crate::mem_file::MemFile;
use crate::mem_file::MemFileView;
use crate::mem_file::Mode;
use crate::pragma::push_quoted;
use crate::pragma::spec_quoted;
use crate::pragma::DatabaseName;
use vstd::std_specs::iter::IteratorSpec;

verus! {

/// The mathematical value of one schema slot: its name, the image the
/// engine's own driver holds for it (meaningful while no file is hooked),
/// and the hooked file record, if one is installed.
pub struct SlotView {
    pub name: Seq<char>,
    pub engine_image: Seq<u8>,
    pub file: Option<FileView>,
}

/// The mathematical value of a connection: its slots in attachment order
/// and the size limit the engine gives a freshly hooked file.
pub struct ConnView {
    pub slots: Seq<SlotView>,
    pub size_max_default: nat,
}

impl ConnView {
    /// Invariant: schema names are unique, every hooked record is well
    /// formed, and the default size limit fits the engine's signed 64-bit
    /// sizes.
    pub open spec fn wf(self) -> bool {
        &&& self.size_max_default <= i64::MAX
        &&& forall|i: int, j: int|
            0 <= i < j < self.slots.len() ==> #[trigger] self.slots[i].name != #[trigger] self.slots[j].name
        &&& forall|i: int|
            0 <= i < self.slots.len() ==> (#[trigger] self.slots[i].file matches Some(f) ==> f.wf())
    }
}

/// The index of the slot named `name`, or none.
pub open spec fn spec_find(slots: Seq<SlotView>, name: Seq<char>) -> Option<int>
    decreases slots.len(),
{
    if slots.len() == 0 {
        None
    } else if slots[0].name == name {
        Some(0)
    } else {
        match spec_find(slots.drop_first(), name) {
            Some(i) => Some(i + 1),
            None => None,
        }
    }
}

/// Whether the text contains an interior nul, which no C string can carry;
/// names with one are rejected with the generic I/O error, as the engine's
/// text interface cannot receive them.
pub open spec fn spec_has_nul(s: Seq<char>) -> bool {
    exists|i: int| 0 <= i < s.len() && s[i] == '\0'
}

/// The buffer view a deserialize call installs: accounted capacity starts
/// at the length.
pub open spec fn spec_attached_view(bytes: Seq<u8>, mode: Mode) -> MemFileView {
    MemFileView { bytes, cap: bytes.len(), mode }
}

/// The transition of the attach operations: a name with an interior nul or
/// without a slot is rejected with the generic I/O error; otherwise any
/// file hooked at the slot is closed and a fresh record around `file` is
/// installed, with the connection's default size limit, no snapshot and no
/// lease outstanding.
pub open spec fn spec_attach(c: ConnView, name: Seq<char>, file: MemFileView) -> (ConnView, Result<
    (),
    FileError,
>) {
    if spec_has_nul(name) {
        (c, Err(FileError::Io))
    } else {
        match spec_find(c.slots, name) {
            None => (c, Err(FileError::Io)),
            Some(i) => (
                ConnView {
                    slots: c.slots.update(
                        i,
                        SlotView {
                            name: c.slots[i].name,
                            engine_image: c.slots[i].engine_image,
                            file: Some(
                                FileView {
                                    file,
                                    size_max: c.size_max_default,
                                    mapped: 0,
                                    shared: 0,
                                },
                            ),
                        },
                    ),
                    ..c
                },
                Ok(()),
            ),
        }
    }
}

/// The result of serialization: the hooked file's bytes when the slot is
/// hooked, the engine's own image when it is not (the fallback the page
/// backup produces), none when the schema does not exist, and the generic
/// I/O error for a name no C string can carry.
pub open spec fn spec_serialize(c: ConnView, name: Seq<char>) -> Result<
    Option<Seq<u8>>,
    FileError,
> {
    if spec_has_nul(name) {
        Err(FileError::Io)
    } else {
        match spec_find(c.slots, name) {
            None => Ok(None),
            Some(i) => match c.slots[i].file {
                Some(f) => Ok(Some(f.file.bytes)),
                None => Ok(Some(c.slots[i].engine_image)),
            },
        }
    }
}

/// The transition of reference-counted serialization: on a hooked slot it
/// takes one more shared snapshot and returns the bytes without copying
/// them out of the record (the model returns their value); on a missing
/// schema or an unhooked slot it returns none and changes nothing.  A
/// saturated snapshot counter is abnormal and reports the generic I/O
/// error.
pub open spec fn spec_serialize_rc(c: ConnView, name: Seq<char>) -> (ConnView, Result<
    Option<Seq<u8>>,
    FileError,
>) {
    if spec_has_nul(name) {
        (c, Err(FileError::Io))
    } else {
        match spec_find(c.slots, name) {
            None => (c, Ok(None)),
            Some(i) => match c.slots[i].file {
                None => (c, Ok(None)),
                Some(f) => if f.shared < usize::MAX {
                    (
                        ConnView {
                            slots: c.slots.update(
                                i,
                                SlotView {
                                    name: c.slots[i].name,
                                    engine_image: c.slots[i].engine_image,
                                    file: Some(FileView { shared: f.shared + 1, ..f }),
                                },
                            ),
                            ..c
                        },
                        Ok(Some(f.file.bytes)),
                    )
                } else {
                    (c, Err(FileError::Io))
                },
            },
        }
    }
}

/// The transition of releasing one reference obtained from the
/// reference-counted serialization: decrements the slot's snapshot count.
/// Releasing on a missing schema, an unhooked slot, or a record without an
/// outstanding snapshot is abnormal and reports the generic I/O error.
pub open spec fn spec_release_rc(c: ConnView, name: Seq<char>) -> (ConnView, Result<
    (),
    FileError,
>) {
    if spec_has_nul(name) {
        (c, Err(FileError::Io))
    } else {
        match spec_find(c.slots, name) {
            None => (c, Err(FileError::Io)),
            Some(i) => match c.slots[i].file {
                None => (c, Err(FileError::Io)),
                Some(f) => if f.shared > 0 {
                    (
                        ConnView {
                            slots: c.slots.update(
                                i,
                                SlotView {
                                    name: c.slots[i].name,
                                    engine_image: c.slots[i].engine_image,
                                    file: Some(FileView { shared: (f.shared - 1) as nat, ..f }),
                                },
                            ),
                            ..c
                        },
                        Ok(()),
                    )
                } else {
                    (c, Err(FileError::Io))
                },
            },
        }
    }
}

/// One schema slot of the model connection.
struct SchemaSlot {
    name: String,
    engine_image: Vec<u8>,
    file: Option<HookedFile>,
}

impl View for SchemaSlot {
    type V = SlotView;

    closed spec fn view(&self) -> SlotView {
        SlotView {
            name: self.name@,
            engine_image: self.engine_image@,
            file: match self.file {
                Some(f) => Some(f@),
                None => None,
            },
        }
    }
}

/// The verified model of one connection's schema attachments: the relation
/// the host engine maintains from schema names to file slots, together
/// with the operations of the serialization bridge.
pub struct Connection {
    slots: Vec<SchemaSlot>,
    size_max_default: u64,
}

impl View for Connection {
    type V = ConnView;

    closed spec fn view(&self) -> ConnView {
        ConnView {
            slots: self.slots@.map_values(|s: SchemaSlot| s@),
            size_max_default: self.size_max_default as nat,
        }
    }
}

/// Whether the text contains an interior nul.
fn contains_nul(s: &str) -> (b: bool)
    ensures
        b == spec_has_nul(s@),
{
    broadcast use vstd::string::next_postcondition, vstd::string::axiom_spec_iter;

    let mut it = s.chars();
    let ghost consumed: int = 0;
    let mut found = false;
    proof {
        assert(it.remaining() =~= s@.skip(0));
    }
    loop
        invariant
            0 <= consumed <= s@.len(),
            IteratorSpec::remaining(&it) == s@.skip(consumed),
            found == (exists|j: int| 0 <= j < consumed && s@[j] == '\0'),
        ensures
            consumed == s@.len(),
            found == (exists|j: int| 0 <= j < consumed && s@[j] == '\0'),
        decreases s@.len() - consumed,
    {
        match it.next() {
            None => {
                proof {
                    assert(s@.skip(consumed).len() == 0);
                    assert(consumed == s@.len());
                }
                break ;
            },
            Some(c) => {
                proof {
                    assert(s@.skip(consumed).len() > 0);
                    assert(c == s@.skip(consumed)[0]);
                    assert(c == s@[consumed]);
                    assert(s@.skip(consumed).drop_first() =~= s@.skip(consumed + 1));
                }
                if c == '\0' {
                    found = true;
                    proof {
                        assert(s@[consumed] == '\0');
                    }
                }
                proof {
                    consumed = consumed + 1;
                }
            },
        }
    }
    found
}

/// What [`spec_find`] says of a sequence of slots: a found index carries
/// the name, and a miss means no slot carries it.
pub proof fn lemma_find_characterizes(slots: Seq<SlotView>, name: Seq<char>)
    ensures
        match spec_find(slots, name) {
            Some(i) => 0 <= i < slots.len() && slots[i].name == name && forall|j: int|
                0 <= j < i ==> #[trigger] slots[j].name != name,
            None => forall|j: int| 0 <= j < slots.len() ==> #[trigger] slots[j].name != name,
        },
    decreases slots.len(),
{
    if slots.len() > 0 && slots[0].name != name {
        let rest = slots.drop_first();
        lemma_find_characterizes(rest, name);
        assert forall|j: int| 1 <= j < slots.len() implies slots[j] == rest[j - 1] by {
            assert(rest[j - 1] == slots[j]);
        }
        match spec_find(rest, name) {
            Some(i) => {
                assert(slots[i + 1].name == name);
                assert forall|j: int| 0 <= j < i + 1 implies #[trigger] slots[j].name != name by {
                    if j >= 1 {
                        assert(rest[j - 1].name != name);
                    }
                }
            },
            None => {
                assert forall|j: int|
                    0 <= j < slots.len() implies #[trigger] slots[j].name != name by {
                    if j >= 1 {
                        assert(rest[j - 1].name != name);
                    }
                }
            },
        }
    }
}

/// The first index carrying `name`, if any, is what [`spec_find`] returns.
proof fn lemma_find_at(slots: Seq<SlotView>, name: Seq<char>, i: int)
    requires
        0 <= i <= slots.len(),
        forall|j: int| 0 <= j < i ==> #[trigger] slots[j].name != name,
        i < slots.len() ==> slots[i].name == name,
    ensures
        i < slots.len() ==> spec_find(slots, name) == Some(i),
        i == slots.len() ==> spec_find(slots, name) == None::<int>,
    decreases slots.len(),
{
    if slots.len() > 0 && i > 0 {
        lemma_find_at(slots.drop_first(), name, i - 1);
    }
}

/// Updating a slot without changing its name leaves the lookup in place.
proof fn lemma_find_after_update(slots: Seq<SlotView>, name: Seq<char>, i: int, slot: SlotView)
    requires
        spec_find(slots, name) == Some(i),
        slot.name == slots[i].name,
    ensures
        spec_find(slots.update(i, slot), name) == Some(i),
    decreases slots.len(),
{
    lemma_find_characterizes(slots, name);
    if slots[0].name == name {
        assert(slots.update(0, slot)[0] == slot);
    } else {
        lemma_find_after_update(slots.drop_first(), name, i - 1, slot);
        assert(slots.update(i, slot).drop_first() =~= slots.drop_first().update(i - 1, slot));
        assert(slots.update(i, slot)[0] == slots[0]);
    }
}

impl Connection {
    /// Invariant carried by every connection.
    pub open spec fn wf(&self) -> bool {
        self@.wf()
    }

    /// A fresh in-memory connection: a main and a temporary schema, both
    /// still on the engine's default driver with an empty image, and the
    /// engine's default size limit for freshly hooked files.
    pub fn new() -> (c: Connection)
        ensures
            c.wf(),
            c@.slots.len() == 2,
            c@.slots[0].name == "main"@,
            c@.slots[1].name == "temp"@,
            c@.slots[0].engine_image == Seq::<u8>::empty(),
            c@.slots[1].engine_image == Seq::<u8>::empty(),
            c@.slots[0].file is None,
            c@.slots[1].file is None,
            c@.size_max_default == DEFAULT_SIZE_MAX,
    {
        let mut slots: Vec<SchemaSlot> = Vec::new();
        slots.push(
            SchemaSlot { name: "main".to_owned(), engine_image: Vec::new(), file: None },
        );
        slots.push(
            SchemaSlot { name: "temp".to_owned(), engine_image: Vec::new(), file: None },
        );
        let c = Connection { slots, size_max_default: DEFAULT_SIZE_MAX };
        proof {
            reveal_strlit("main");
            reveal_strlit("temp");
            assert(("main"@)[1] == 'a' && ("temp"@)[1] == 'e');
            assert("main"@ != "temp"@);
            assert(c@.slots.len() == 2);
            assert(c@.slots[0] == (SlotView {
                name: "main"@,
                engine_image: Seq::<u8>::empty(),
                file: None,
            }));
            assert(c@.slots[1] == (SlotView {
                name: "temp"@,
                engine_image: Seq::<u8>::empty(),
                file: None,
            }));
        }
        c
    }

    /// Attaches one more schema, as the engine's attach statement would; it
    /// starts on the default driver with the given engine image.  A name
    /// with an interior nul or one already attached is rejected with the
    /// generic I/O error.
    pub fn attach(&mut self, name: &str, engine_image: Vec<u8>) -> (r: Result<(), FileError>)
        requires
            old(self).wf(),
        ensures
            final(self).wf(),
            spec_has_nul(name@) || spec_find(old(self)@.slots, name@) is Some ==> r == Err::<
                (),
                FileError,
            >(FileError::Io) && final(self)@ == old(self)@,
            !(spec_has_nul(name@) || spec_find(old(self)@.slots, name@) is Some) ==> r == Ok::<
                (),
                FileError,
            >(()) && final(self)@ == (ConnView {
                slots: old(self)@.slots.push(
                    SlotView { name: name@, engine_image: engine_image@, file: None },
                ),
                ..old(self)@
            }),
    {
        if contains_nul(name) {
            return Err(FileError::Io);
        }
        match self.find_slot(name) {
            Some(_) => Err(FileError::Io),
            None => {
                proof {
                    lemma_find_characterizes(old(self)@.slots, name@);
                }
                self.slots.push(
                    SchemaSlot { name: name.to_owned(), engine_image, file: None },
                );
                proof {
                    assert(final(self)@.slots =~= old(self)@.slots.push(
                        SlotView { name: name@, engine_image: engine_image@, file: None },
                    ));
                }
                Ok(())
            },
        }
    }

    /// The index of the slot named `name`.
    fn find_slot(&self, name: &str) -> (r: Option<usize>)
        ensures
            match r {
                Some(i) => spec_find(self@.slots, name@) == Some(i as int),
                None => spec_find(self@.slots, name@) is None,
            },
    {
        let key: String = name.to_owned();
        let n = self.slots.len();
        let mut i: usize = 0;
        while i < n
            invariant
                n == self.slots.len(),
                0 <= i <= n,
                key@ == name@,
                forall|j: int| 0 <= j < i ==> #[trigger] self@.slots[j].name != name@,
            decreases n - i,
        {
            if self.slots[i].name == key {
                proof {
                    lemma_find_at(self@.slots, name@, i as int);
                }
                return Some(i);
            }
            i = i + 1;
        }
        proof {
            lemma_find_at(self@.slots, name@, n as int);
        }
        None
    }

    /// Disconnects the schema from its current file and reopens it as an
    /// in-memory database over `data`, exclusively owned.  Fails with the
    /// generic I/O error when the schema does not exist (or its name can be
    /// no C string); any file hooked at the slot before is closed.
    pub fn deserialize(&mut self, db: &DatabaseName, data: Vec<u8>) -> (r: Result<(), FileError>)
        requires
            old(self).wf(),
            data@.len() <= i64::MAX,
        ensures
            final(self).wf(),
            (final(self)@, r) == spec_attach(
                old(self)@,
                db.spec_name(),
                spec_attached_view(data@, Mode::Owned),
            ),
    {
        let file = MemFile::owned(data);
        self.attach_file(db, file)
    }

    /// Installs `file` at the schema's slot: the shared step of the attach
    /// operations.
    fn attach_file(&mut self, db: &DatabaseName, file: MemFile) -> (r: Result<(), FileError>)
        requires
            old(self).wf(),
            file.wf(),
            file@.cap <= i64::MAX,
            file@.cap == file@.bytes.len(),
        ensures
            final(self).wf(),
            (final(self)@, r) == spec_attach(old(self)@, db.spec_name(), file@),
    {
        let name = db.name();
        if contains_nul(name) {
            return Err(FileError::Io);
        }
        match self.find_slot(name) {
            None => Err(FileError::Io),
            Some(i) => {
                proof {
                    lemma_find_characterizes(old(self)@.slots, name@);
                }
                let record = HookedFile::new(file, self.size_max_default);
                self.slots[i].file = Some(record);
                proof {
                    assert(final(self)@.slots =~= spec_attach(
                        old(self)@,
                        db.spec_name(),
                        file@,
                    ).0.slots);
                    assert(final(self)@ == spec_attach(old(self)@, db.spec_name(), file@).0);
                }
                Ok(())
            },
        }
    }

    /// Copies the serialization of the schema's database out as an owned
    /// buffer, or returns none when the schema does not exist.  A hooked
    /// slot is cloned directly; for one still on the default driver the
    /// boundary glue obtains the same bytes by driving the engine's page
    /// backup (see [`StepOutcome`]), which this model carries as the
    /// slot's engine image.
    pub fn serialize(&self, db: &DatabaseName) -> (r: Result<Option<Vec<u8>>, FileError>)
        requires
            self.wf(),
        ensures
            ({
                let s = spec_serialize(self@, db.spec_name());
                match r {
                    Ok(Some(v)) => s matches Ok(Some(b)) && v@ == b,
                    Ok(None) => s == Ok::<Option<Seq<u8>>, FileError>(None),
                    Err(e) => s == Err::<Option<Seq<u8>>, FileError>(e),
                }
            }),
    {
        let name = db.name();
        if contains_nul(name) {
            return Err(FileError::Io);
        }
        match self.find_slot(name) {
            None => Ok(None),
            Some(i) => {
                proof {
                    lemma_find_characterizes(self@.slots, name@);
                }
                match &self.slots[i].file {
                    Some(record) => Ok(Some(record.as_ref().to_vec())),
                    None => Ok(
                        Some(crate::mem_file::copy_bytes(self.slots[i].engine_image.as_slice())),
                    ),
                }
            },
        }
    }

    /// How many shared snapshots are outstanding on the schema's hooked
    /// file, or none when the schema does not exist or is not hooked.
    pub fn snapshot_refs(&self, db: &DatabaseName) -> (r: Option<usize>)
        requires
            self.wf(),
        ensures
            match spec_find(self@.slots, db.spec_name()) {
                Some(i) => match self@.slots[i].file {
                    Some(f) => r == Some(f.shared as usize),
                    None => r is None,
                },
                None => r is None,
            },
    {
        match self.find_slot(db.name()) {
            None => None,
            Some(i) => {
                proof {
                    lemma_find_characterizes(self@.slots, db.spec_name());
                }
                match &self.slots[i].file {
                    Some(record) => Some(record.snapshot_refs()),
                    None => None,
                }
            },
        }
    }


    /// The shared step of the reference-counted serialization.
    fn serialize_rc_impl(&mut self, db: &DatabaseName) -> (r: Result<Option<Vec<u8>>, FileError>)
        requires
            old(self).wf(),
        ensures
            final(self).wf(),
            final(self)@ == spec_serialize_rc(old(self)@, db.spec_name()).0,
            ({
                let s = spec_serialize_rc(old(self)@, db.spec_name()).1;
                match r {
                    Ok(Some(v)) => s matches Ok(Some(b)) && v@ == b,
                    Ok(None) => s == Ok::<Option<Seq<u8>>, FileError>(None),
                    Err(e) => s == Err::<Option<Seq<u8>>, FileError>(e),
                }
            }),
    {
        let name = db.name();
        if contains_nul(name) {
            return Err(FileError::Io);
        }
        match self.find_slot(name) {
            None => Ok(None),
            Some(i) => {
                proof {
                    lemma_find_characterizes(old(self)@.slots, name@);
                }
                match self.slots[i].file.take() {
                    None => {
                        proof {
                            assert(self@.slots =~= old(self)@.slots);
                        }
                        Ok(None)
                    },
                    Some(mut record) => {
                        let ghost pre = record@;
                        let bytes = record.as_ref().to_vec();
                        proof {
                            // The slot's record is covered by the connection
                            // invariant, so its counters fit their types.
                            assert(old(self)@.slots[i as int].file == Some(pre));
                            assert(pre.wf());
                        }
                        let taken = record.add_snapshot();
                        self.slots[i].file = Some(record);
                        proof {
                            assert(self@.slots =~= spec_serialize_rc(
                                old(self)@,
                                db.spec_name(),
                            ).0.slots);
                        }
                        match taken {
                            Ok(()) => Ok(Some(bytes)),
                            Err(e) => Err(e),
                        }
                    },
                }
            },
        }
    }

    /// The shared step of releasing a reference-counted serialization.
    fn release_rc_impl(&mut self, db: &DatabaseName) -> (r: Result<(), FileError>)
        requires
            old(self).wf(),
        ensures
            final(self).wf(),
            (final(self)@, r) == spec_release_rc(old(self)@, db.spec_name()),
    {
        let name = db.name();
        if contains_nul(name) {
            return Err(FileError::Io);
        }
        match self.find_slot(name) {
            None => Err(FileError::Io),
            Some(i) => {
                proof {
                    lemma_find_characterizes(old(self)@.slots, name@);
                }
                match self.slots[i].file.take() {
                    None => {
                        proof {
                            assert(self@.slots =~= old(self)@.slots);
                        }
                        Err(FileError::Io)
                    },
                    Some(mut record) => {
                        let released = record.release_snapshot();
                        self.slots[i].file = Some(record);
                        proof {
                            assert(self@.slots =~= spec_release_rc(
                                old(self)@,
                                db.spec_name(),
                            ).0.slots);
                        }
                        released
                    },
                }
            },
        }
    }

    /// Wraps the connection so that attachments over borrowed memory tie
    /// their lifetime to the connection's.
    pub fn into_borrowing(self) -> (b: BorrowingConnection)
        ensures
            b@ == self@,
    {
        BorrowingConnection { conn: self }
    }
}

/// Wrapper around [`Connection`] that ties attachments over borrowed
/// memory to the connection's lifetime, and carries the reference-counted
/// serialization whose outstanding references write-protect the slot.
pub struct BorrowingConnection {
    conn: Connection,
}

impl View for BorrowingConnection {
    type V = ConnView;

    closed spec fn view(&self) -> ConnView {
        self.conn@
    }
}

impl BorrowingConnection {
    /// Invariant carried by every connection.
    pub open spec fn wf(&self) -> bool {
        self@.wf()
    }

    /// The wrapped connection.
    pub fn conn(&self) -> (c: &Connection)
        ensures
            c@ == self@,
    {
        &self.conn
    }

    /// Unwraps the connection again.
    pub fn into_inner(self) -> (c: Connection)
        ensures
            c@ == self@,
    {
        let BorrowingConnection { conn } = self;
        conn
    }

    /// Obtains a reference-counted serialization of the schema's database
    /// without copying, or none when the schema does not exist or no
    /// in-memory file is hooked there.  While the reference is outstanding
    /// every write and truncate on that slot fails read-only; see
    /// [`Self::release_rc`].
    pub fn serialize_rc(&mut self, db: &DatabaseName) -> (r: Result<Option<Vec<u8>>, FileError>)
        requires
            old(self).wf(),
        ensures
            final(self).wf(),
            final(self)@ == spec_serialize_rc(old(self)@, db.spec_name()).0,
            ({
                let s = spec_serialize_rc(old(self)@, db.spec_name()).1;
                match r {
                    Ok(Some(v)) => s matches Ok(Some(b)) && v@ == b,
                    Ok(None) => s == Ok::<Option<Seq<u8>>, FileError>(None),
                    Err(e) => s == Err::<Option<Seq<u8>>, FileError>(e),
                }
            }),
    {
        self.conn.serialize_rc_impl(db)
    }

    /// Releases one reference obtained from [`Self::serialize_rc`], as
    /// dropping it does; once none is outstanding the exclusive owner
    /// regains write access.
    pub fn release_rc(&mut self, db: &DatabaseName) -> (r: Result<(), FileError>)
        requires
            old(self).wf(),
        ensures
            final(self).wf(),
            (final(self)@, r) == spec_release_rc(old(self)@, db.spec_name()),
    {
        self.conn.release_rc_impl(db)
    }

    /// Disconnects the schema and reopens it as a read-only in-memory
    /// database over the given bytes.
    pub fn deserialize_read_only(&mut self, db: &DatabaseName, data: &[u8]) -> (r: Result<
        (),
        FileError,
    >)
        requires
            old(self).wf(),
            data@.len() <= i64::MAX,
        ensures
            final(self).wf(),
            (final(self)@, r) == spec_attach(
                old(self)@,
                db.spec_name(),
                spec_attached_view(data@, Mode::ReadOnly),
            ),
    {
        let file = MemFile::read_only(crate::mem_file::copy_bytes(data));
        self.conn.attach_file(db, file)
    }

    /// Disconnects the schema and reopens it as an in-memory database over
    /// a growable buffer borrowed from the caller; on release the boundary
    /// glue hands the final bytes back.
    pub fn deserialize_resizable(&mut self, db: &DatabaseName, data: Vec<u8>) -> (r: Result<
        (),
        FileError,
    >)
        requires
            old(self).wf(),
            data@.len() <= i64::MAX,
        ensures
            final(self).wf(),
            (final(self)@, r) == spec_attach(
                old(self)@,
                db.spec_name(),
                spec_attached_view(data@, Mode::Resizable),
            ),
    {
        let len = data.len();
        let file = MemFile::resizable(data, len);
        self.conn.attach_file(db, file)
    }

    /// Disconnects the schema and reopens it over an exclusively owned
    /// buffer; see [`Connection::deserialize`].
    pub fn deserialize(&mut self, db: &DatabaseName, data: Vec<u8>) -> (r: Result<(), FileError>)
        requires
            old(self).wf(),
            data@.len() <= i64::MAX,
        ensures
            final(self).wf(),
            (final(self)@, r) == spec_attach(
                old(self)@,
                db.spec_name(),
                spec_attached_view(data@, Mode::Owned),
            ),
    {
        self.conn.deserialize(db, data)
    }

    /// Copies the serialization of the schema's database out; see
    /// [`Connection::serialize`].
    pub fn serialize(&self, db: &DatabaseName) -> (r: Result<Option<Vec<u8>>, FileError>)
        requires
            self.wf(),
        ensures
            ({
                let s = spec_serialize(self@, db.spec_name());
                match r {
                    Ok(Some(v)) => s matches Ok(Some(b)) && v@ == b,
                    Ok(None) => s == Ok::<Option<Seq<u8>>, FileError>(None),
                    Err(e) => s == Err::<Option<Seq<u8>>, FileError>(e),
                }
            }),
    {
        self.conn.serialize(db)
    }

    /// Attaches one more schema; see [`Connection::attach`].
    pub fn attach(&mut self, name: &str, engine_image: Vec<u8>) -> (r: Result<(), FileError>)
        requires
            old(self).wf(),
        ensures
            final(self).wf(),
            spec_has_nul(name@) || spec_find(old(self)@.slots, name@) is Some ==> r == Err::<
                (),
                FileError,
            >(FileError::Io) && final(self)@ == old(self)@,
            !(spec_has_nul(name@) || spec_find(old(self)@.slots, name@) is Some) ==> r == Ok::<
                (),
                FileError,
            >(()) && final(self)@ == (ConnView {
                slots: old(self)@.slots.push(
                    SlotView { name: name@, engine_image: engine_image@, file: None },
                ),
                ..old(self)@
            }),
    {
        self.conn.attach(name, engine_image)
    }

    /// How many shared snapshots are outstanding on the schema's hooked
    /// file; see [`Connection::snapshot_refs`].
    pub fn snapshot_refs(&self, db: &DatabaseName) -> (r: Option<usize>)
        requires
            self.wf(),
        ensures
            match spec_find(self@.slots, db.spec_name()) {
                Some(i) => match self@.slots[i].file {
                    Some(f) => r == Some(f.shared as usize),
                    None => r is None,
                },
                None => r is None,
            },
    {
        self.conn.snapshot_refs(db)
    }
}

/// One outcome of the engine's page-backup stepping primitive, which the
/// fallback serialize path drives in bounded steps.
#[derive(Clone, Copy, Debug, PartialEq, Eq, Structural)]
pub enum StepOutcome {
    /// Pages remain; step again.
    More,
    /// The copy is complete.
    Done,
    /// The source database is busy.
    Busy,
    /// A table of the source database is locked.
    Locked,
}

/// What the fallback copy loop does after one backup step.
#[derive(Clone, Copy, Debug, PartialEq, Eq, Structural)]
pub enum BackupAction {
    /// Drive another bounded step.
    Continue,
    /// The image is complete.
    Finish,
    /// Surface contention to the caller as an ordinary error.
    Fail(FileError),
}

/// How many pages each bounded backup step copies.
pub const BACKUP_PAGES_PER_STEP: i32 = 100;

/// The decision the fallback copy loop takes after each backup step: step
/// again while pages remain, finish on completion, and surface busy or
/// locked contention as the corresponding error, to be retried at a higher
/// level.
pub fn backup_step_decision(outcome: StepOutcome) -> (a: BackupAction)
    ensures
        a == match outcome {
            StepOutcome::More => BackupAction::Continue,
            StepOutcome::Done => BackupAction::Finish,
            StepOutcome::Busy => BackupAction::Fail(FileError::Busy),
            StepOutcome::Locked => BackupAction::Fail(FileError::Locked),
        },
{
    match outcome {
        StepOutcome::More => BackupAction::Continue,
        StepOutcome::Done => BackupAction::Finish,
        StepOutcome::Busy => BackupAction::Fail(FileError::Busy),
        StepOutcome::Locked => BackupAction::Fail(FileError::Locked),
    }
}

/// The SQL text the fallback serialize path runs to learn the database
/// image size before driving the backup: page count times page size, from
/// the pragma tables of the schema, whose name stands single-quoted with
/// embedded quotes doubled.
pub fn db_size_query_sql(schema: &str) -> (s: String)
    ensures
        s@ == "SELECT page_count * page_size FROM "@ + spec_quoted(schema@, '\'')
            + ".pragma_page_count, "@ + spec_quoted(schema@, '\'') + ".pragma_page_size"@,
{
    let mut q = String::new();
    q.push_str("SELECT page_count * page_size FROM ");
    push_quoted(&mut q, schema, '\'');
    q.push_str(".pragma_page_count, ");
    push_quoted(&mut q, schema, '\'');
    q.push_str(".pragma_page_size");
    proof {
        assert(q@ =~= "SELECT page_count * page_size FROM "@ + spec_quoted(schema@, '\'')
            + ".pragma_page_count, "@ + spec_quoted(schema@, '\'') + ".pragma_page_size"@);
    }
    q
}

/// Law (round trip): after deserializing a buffer at an existing schema
/// slot, serializing the same schema yields exactly that buffer's bytes.
pub proof fn lemma_round_trip(c: ConnView, name: Seq<char>, file: MemFileView)
    requires
        spec_attach(c, name, file).1 == Ok::<(), FileError>(()),
    ensures
        spec_serialize(spec_attach(c, name, file).0, name) == Ok::<Option<Seq<u8>>, FileError>(
            Some(file.bytes),
        ),
{
    let i = spec_find(c.slots, name)->Some_0;
    lemma_find_characterizes(c.slots, name);
    lemma_find_after_update(c.slots, name, i, spec_attach(c, name, file).0.slots[i]);
}

/// Law (exclusivity): after a reference-counted serialization succeeds on
/// a hooked slot, any write through that slot's record fails read-only and
/// changes nothing; and releasing the reference restores the connection
/// exactly, so the same write behaves as before the serialization.
pub proof fn lemma_serialize_rc_exclusivity(c: ConnView, name: Seq<char>, ofst: int, d: Seq<u8>)
    requires
        spec_serialize_rc(c, name).1 matches Ok(o) && o is Some,
    ensures
        spec_find(spec_serialize_rc(c, name).0.slots, name) matches Some(i)
            && spec_serialize_rc(c, name).0.slots[i].file matches Some(f) && crate::hooked_file::spec_write(
            f,
            ofst,
            d,
        ) == (f, Err::<(), FileError>(FileError::ReadOnly)),
        spec_release_rc(spec_serialize_rc(c, name).0, name).0 == c,
{
    let i = spec_find(c.slots, name)->Some_0;
    lemma_find_characterizes(c.slots, name);
    let c1 = spec_serialize_rc(c, name).0;
    lemma_find_after_update(c.slots, name, i, c1.slots[i]);
    crate::hooked_file::lemma_snapshot_write_exclusion(
        c1.slots[i].file->Some_0,
        ofst,
        d,
    );
    let c2 = spec_release_rc(c1, name).0;
    assert(c2.slots[i] == c.slots[i]);
    assert(c2.slots =~= c.slots);
}

/// Law (read-only attachment): after attaching an immutable view at a
/// schema slot, every write through that slot's record fails read-only and
/// changes nothing, and every lock request stronger than shared is
/// rejected read-only.
pub proof fn lemma_read_only_attachment(
    c: ConnView,
    name: Seq<char>,
    bytes: Seq<u8>,
    ofst: int,
    d: Seq<u8>,
    level: i32,
)
    requires
        spec_attach(c, name, spec_attached_view(bytes, Mode::ReadOnly)).1 == Ok::<
            (),
            FileError,
        >(()),
    ensures
        spec_find(spec_attach(c, name, spec_attached_view(bytes, Mode::ReadOnly)).0.slots, name)
            matches Some(i) && spec_attach(
            c,
            name,
            spec_attached_view(bytes, Mode::ReadOnly),
        ).0.slots[i].file matches Some(f) && crate::hooked_file::spec_write(f, ofst, d) == (
            f,
            Err::<(), FileError>(FileError::ReadOnly),
        ) && (level > crate::codes::LOCK_SHARED ==> crate::hooked_file::spec_lock(f, level)
            == Err::<(), FileError>(FileError::ReadOnly)),
{
    let i = spec_find(c.slots, name)->Some_0;
    lemma_find_characterizes(c.slots, name);
    let c1 = spec_attach(c, name, spec_attached_view(bytes, Mode::ReadOnly)).0;
    lemma_find_after_update(c.slots, name, i, c1.slots[i]);
    crate::hooked_file::lemma_read_only_rejects(c1.slots[i].file->Some_0, ofst, d, level);
}

} // verus!
