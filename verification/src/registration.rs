//! The association of URL schemes with the executable, as values of the
//! configuration storage.
//!
//! Nothing here touches the storage. [`register`] says which values stand for
//! the schemes and [`unregister`] which keys are to go; the caller writes and
//! deletes. [`Storage`] is a model of the storage that states what these
//! writes and deletions amount to.

use crate::identity::IdentityStore;
use crate::text::{remove_all, without};
use vstd::prelude::*;
use vstd::string::*;

verus! {

/// One value of the configuration storage.
#[derive(Debug, PartialEq, Eq)]
pub struct RegistryValue {
    /// The path of the key, from the current user's root.
    pub key: String,
    /// The value's name; empty for the key's default value.
    pub name: String,
    /// The value's text.
    pub data: String,
}

/// A [`RegistryValue`] with its texts as characters.
pub struct RegistryValueModel {
    pub key: Seq<char>,
    pub name: Seq<char>,
    pub data: Seq<char>,
}

impl View for RegistryValue {
    type V = RegistryValueModel;

    open spec fn view(&self) -> RegistryValueModel {
        RegistryValueModel { key: self.key@, name: self.name@, data: self.data@ }
    }
}

/// The views of `values`, in order.
pub open spec fn views(values: Seq<RegistryValue>) -> Seq<RegistryValueModel> {
    values.map_values(|value: RegistryValue| value@)
}

/// The views of `texts`, in order.
pub open spec fn texts_of(texts: Seq<String>) -> Seq<Seq<char>> {
    texts.map_values(|text: String| text@)
}

/// The key under which `scheme` is associated.
pub open spec fn class_key(scheme: Seq<char>) -> Seq<char> {
    "Software\\Classes\\"@ + scheme
}

/// The key that holds the icon of `scheme`.
pub open spec fn icon_key(scheme: Seq<char>) -> Seq<char> {
    class_key(scheme) + "\\DefaultIcon"@
}

/// The key that holds the command by which links of `scheme` are opened.
pub open spec fn command_key(scheme: Seq<char>) -> Seq<char> {
    class_key(scheme) + "\\shell\\open\\command"@
}

/// The path of the executable as the storage takes it: without the prefix
/// that marks a verbatim path.
pub open spec fn plain_path(exe: Seq<char>) -> Seq<char> {
    without(exe, "\\\\?\\"@)
}

/// The values that associate `scheme` with the executable at `exe`, for the
/// application of the identity `identity`, in the order in which they are
/// written.
pub open spec fn scheme_values(scheme: Seq<char>, identity: Seq<char>, exe: Seq<char>) -> Seq<
    RegistryValueModel,
> {
    seq![
        RegistryValueModel {
            key: class_key(scheme),
            name: Seq::empty(),
            data: "URL:"@ + identity,
        },
        RegistryValueModel {
            key: class_key(scheme),
            name: "URL Protocol"@,
            data: Seq::empty(),
        },
        RegistryValueModel {
            key: icon_key(scheme),
            name: Seq::empty(),
            data: "\""@ + plain_path(exe) + "\",0"@,
        },
        RegistryValueModel {
            key: command_key(scheme),
            name: Seq::empty(),
            data: "\""@ + plain_path(exe) + "\" \"%1\""@,
        },
    ]
}

/// The values that associate all of `schemes`, scheme after scheme.
pub open spec fn registration(schemes: Seq<&str>, identity: Seq<char>, exe: Seq<char>) -> Seq<
    RegistryValueModel,
>
    decreases schemes.len(),
{
    if schemes.len() == 0 {
        Seq::empty()
    } else {
        registration(schemes.drop_last(), identity, exe) + scheme_values(
            schemes.last()@,
            identity,
            exe,
        )
    }
}

/// The keys under which `schemes` are associated, scheme after scheme.
pub open spec fn class_keys(schemes: Seq<&str>) -> Seq<Seq<char>> {
    schemes.map_values(|scheme: &str| class_key(scheme@))
}

/// `first`, then `second`.
fn concat(first: &str, second: &str) -> (out: String)
    ensures
        out@ == first@ + second@,
{
    let mut out = String::new();
    out.append(first);
    out.append(second);
    out
}

/// The values that associate `schemes` with the executable at `exe`, for the
/// application whose identity is stored, in the order in which they are to
/// be written. Where there is a scheme to associate, the identity must have
/// been stored.
pub fn register_at(schemes: &[&str], store: &IdentityStore, exe: &str) -> (values: Vec<
    RegistryValue,
>)
    requires
        schemes@.len() > 0 ==> store@ is Some,
    ensures
        views(values@) == registration(schemes@, store@->0, exe@),
{
    let path = remove_all(exe, "\\\\?\\");
    let quoted = concat("\"", path.as_str());
    let mut values: Vec<RegistryValue> = Vec::new();
    let mut i: usize = 0;
    while i < schemes.len()
        invariant
            i <= schemes.len(),
            schemes@.len() > 0 ==> store@ is Some,
            quoted@ == "\""@ + plain_path(exe@),
            views(values@) == registration(schemes@.take(i as int), store@->0, exe@),
        decreases schemes.len() - i,
    {
        let class = concat("Software\\Classes\\", schemes[i]);
        values.push(
            RegistryValue {
                key: class.clone(),
                name: String::new(),
                data: concat("URL:", store.get()),
            },
        );
        values.push(
            RegistryValue {
                key: class.clone(),
                name: "URL Protocol".to_owned(),
                data: String::new(),
            },
        );
        values.push(
            RegistryValue {
                key: concat(class.as_str(), "\\DefaultIcon"),
                name: String::new(),
                data: concat(quoted.as_str(), "\",0"),
            },
        );
        values.push(
            RegistryValue {
                key: concat(class.as_str(), "\\shell\\open\\command"),
                name: String::new(),
                data: concat(quoted.as_str(), "\" \"%1\""),
            },
        );
        assert(schemes@.take(i + 1).drop_last() =~= schemes@.take(i as int));
        i += 1;
    }
    assert(schemes@.take(i as int) =~= schemes@);
    values
}

/// The path of the running executable could not be determined.
#[derive(Debug, PartialEq, Eq)]
pub struct ExecutableUnknown {
    /// What the platform said about it.
    pub reason: String,
}

/// The path of the running executable, from
/// `tauri_utils::platform::current_exe`, or the message of the error that
/// it gave. The function hands out what it found when the program was
/// loaded. Nothing is claimed here of the path or of the message.
#[verifier::external_body]
fn current_exe() -> (found: Result<String, String>) {
    match tauri_utils::platform::current_exe() {
        Ok(path) => Ok(path.display().to_string()),
        Err(error) => Err(error.to_string()),
    }
}

/// The values that associate `schemes` with the running executable, for the
/// application whose identity is stored, in the order in which they are to
/// be written. Where there is a scheme to associate, the identity must have
/// been stored.
///
/// The path of the executable is asked for only where there is a scheme to
/// associate. What comes back for a path is said by [`register_at`].
pub fn register(schemes: &[&str], store: &IdentityStore) -> (result: Result<
    Vec<RegistryValue>,
    ExecutableUnknown,
>)
    requires
        schemes@.len() > 0 ==> store@ is Some,
    ensures
        schemes@.len() == 0 ==> result is Ok,
        result matches Ok(values) ==> exists|exe: Seq<char>|
            views(values@) == #[trigger] registration(schemes@, store@->0, exe),
{
    if schemes.len() == 0 {
        let values: Vec<RegistryValue> = Vec::new();
        assert(views(values@) =~= registration(schemes@, store@->0, Seq::empty()));
        return Ok(values);
    }
    match current_exe() {
        Ok(exe) => Ok(register_at(schemes, store, exe.as_str())),
        Err(reason) => Err(ExecutableUnknown { reason }),
    }
}

/// The keys that are to be deleted, each with all that stands below it, to
/// take the association of `schemes` away, in the order of the schemes.
pub fn unregister(schemes: &[&str]) -> (keys: Vec<String>)
    ensures
        texts_of(keys@) == class_keys(schemes@),
{
    let mut keys: Vec<String> = Vec::new();
    let mut i: usize = 0;
    while i < schemes.len()
        invariant
            i <= schemes.len(),
            keys@.len() == i,
            texts_of(keys@) == class_keys(schemes@.take(i as int)),
        decreases schemes.len() - i,
    {
        let ghost before = keys@;
        keys.push(concat("Software\\Classes\\", schemes[i]));
        proof {
            let after = class_keys(schemes@.take(i + 1));
            assert forall|j: int| 0 <= j < i + 1 implies texts_of(keys@)[j] == after[j] by {
                if j < i {
                    assert(texts_of(before)[j] == class_keys(schemes@.take(i as int))[j]);
                }
            }
        }
        i += 1;
    }
    keys
}

/// What came of the attempt to delete a key.
#[derive(Clone, Copy, Debug, PartialEq, Eq, Structural)]
pub enum Removal {
    /// The key was there and is gone.
    Removed,
    /// There was no such key.
    Missing,
    /// The key could not be deleted.
    Failed,
}

impl Removal {
    /// Whether the attempt counts as an error. To take away what was never
    /// there changes nothing and is none.
    pub fn is_error(self) -> (error: bool)
        ensures
            error == (self is Failed),
    {
        match self {
            Removal::Failed => true,
            _ => false,
        }
    }
}

/// The values of the configuration storage: the text that stands under each
/// pair of a key and a value's name.
pub type Storage = Map<(Seq<char>, Seq<char>), Seq<char>>;

/// The storage after `value` was written to it.
pub open spec fn written(storage: Storage, value: RegistryValueModel) -> Storage {
    storage.insert((value.key, value.name), value.data)
}

/// The storage after `values` were written to it, one after the other.
pub open spec fn written_all(storage: Storage, values: Seq<RegistryValueModel>) -> Storage
    decreases values.len(),
{
    if values.len() == 0 {
        storage
    } else {
        written(written_all(storage, values.drop_last()), values.last())
    }
}

/// `key` is the key `root` or stands below it.
pub open spec fn within(key: Seq<char>, root: Seq<char>) -> bool {
    ||| key =~= root
    ||| {
        &&& key.len() > root.len()
        &&& key.take(root.len() as int) =~= root
        &&& key[root.len() as int] == '\\'
    }
}

/// The storage holds nothing at `root` or below it.
pub open spec fn absent(storage: Storage, root: Seq<char>) -> bool {
    forall|cell: (Seq<char>, Seq<char>)| #[trigger]
        storage.dom().contains(cell) ==> !within(cell.0, root)
}

/// The storage after the key `root` was deleted with all that stood below
/// it.
pub open spec fn deleted(storage: Storage, root: Seq<char>) -> Storage {
    storage.remove_keys(Set::new(|cell: (Seq<char>, Seq<char>)| within(cell.0, root)))
}

/// To write `values` is to lay what they write to an empty storage over
/// what was there.
pub proof fn lemma_writes_overlay(storage: Storage, values: Seq<RegistryValueModel>)
    ensures
        written_all(storage, values) == storage.union_prefer_right(
            written_all(Map::empty(), values),
        ),
    decreases values.len(),
{
    if values.len() > 0 {
        lemma_writes_overlay(storage, values.drop_last());
    }
}

/// What `values` write to an empty storage stands under the keys and names
/// of `values`.
pub proof fn lemma_written_cells(values: Seq<RegistryValueModel>, cell: (Seq<char>, Seq<char>))
    requires
        written_all(Map::empty(), values).dom().contains(cell),
    ensures
        exists|i: int| 0 <= i < values.len() && cell == ((#[trigger] values[i]).key, values[i].name),
    decreases values.len(),
{
    if values.len() > 0 && cell != (values.last().key, values.last().name) {
        lemma_written_cells(values.drop_last(), cell);
        let i = choose|i: int|
            0 <= i < values.drop_last().len() && cell == (
                (#[trigger] values.drop_last()[i]).key,
                values.drop_last()[i].name,
            );
        assert(values[i] == values.drop_last()[i]);
    }
}

/// To write the same values a second time leaves the storage as the first
/// time left it.
pub proof fn lemma_register_twice(storage: Storage, values: Seq<RegistryValueModel>)
    ensures
        written_all(written_all(storage, values), values) == written_all(storage, values),
{
    lemma_writes_overlay(storage, values);
    lemma_writes_overlay(written_all(storage, values), values);
}

/// To delete a key where the storage holds nothing changes nothing.
pub proof fn lemma_unregister_absent(storage: Storage, root: Seq<char>)
    requires
        absent(storage, root),
    ensures
        deleted(storage, root) == storage,
{
}

/// To delete a key a second time changes nothing.
pub proof fn lemma_unregister_twice(storage: Storage, root: Seq<char>)
    ensures
        absent(deleted(storage, root), root),
        deleted(deleted(storage, root), root) == deleted(storage, root),
{
    lemma_unregister_absent(deleted(storage, root), root);
}

/// Every value of a scheme stands at the scheme's key or below it.
pub proof fn lemma_scheme_values_within(scheme: Seq<char>, identity: Seq<char>, exe: Seq<char>)
    ensures
        forall|i: int|
            0 <= i < 4 ==> within(
                (#[trigger] scheme_values(scheme, identity, exe)[i]).key,
                class_key(scheme),
            ),
{
    reveal_strlit("\\DefaultIcon");
    reveal_strlit("\\shell\\open\\command");
}

/// To delete the key of a scheme takes away all that its registration
/// wrote: where the storage held nothing of the scheme, it is again as it
/// was.
pub proof fn lemma_unregister_undoes_register(
    storage: Storage,
    scheme: Seq<char>,
    identity: Seq<char>,
    exe: Seq<char>,
)
    requires
        absent(storage, class_key(scheme)),
    ensures
        deleted(written_all(storage, scheme_values(scheme, identity, exe)), class_key(scheme))
            == storage,
{
    let values = scheme_values(scheme, identity, exe);
    let overlay = written_all(Map::empty(), values);
    let root = class_key(scheme);
    lemma_writes_overlay(storage, values);
    lemma_scheme_values_within(scheme, identity, exe);
    assert forall|cell: (Seq<char>, Seq<char>)| overlay.dom().contains(cell) implies within(
        cell.0,
        root,
    ) by {
        lemma_written_cells(values, cell);
    }
}

} // verus!
