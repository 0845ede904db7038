//! Files that the server keeps: where they lie, and what is taken for an image.

use crate::records::Timestamp;
use crate::refusal::Refusal;
use crate::text;
use base64::Engine;
use vstd::prelude::*;
use vstd::string::*;

verus! {

// ---------------------------------------------------------------------------
// Paths
// ---------------------------------------------------------------------------

/// A path: a root, which is empty for a relative one, and the names that lead on
/// from it.
#[derive(Debug)]
pub struct StoragePath {
    pub root: String,
    pub names: Vec<String>,
}

/// The model of a path.
pub struct PathModel {
    pub root: Seq<char>,
    pub names: Seq<Seq<char>>,
}

impl View for StoragePath {
    type V = PathModel;

    open spec fn view(&self) -> PathModel {
        PathModel { root: self.root@, names: text::texts(self.names@) }
    }
}

/// The path of a name below a path.
pub open spec fn below(path: PathModel, name: Seq<char>) -> PathModel {
    PathModel { root: path.root, names: path.names.push(name) }
}

impl StoragePath {
    /// A copy of the path.
    pub fn copy(&self) -> (r: StoragePath)
        ensures
            r@ == self@,
    {
        StoragePath { root: self.root.clone(), names: text::clone_texts(&self.names) }
    }

    /// The path of a name below this one.
    pub fn join(&self, name: &str) -> (r: StoragePath)
        ensures
            r@ == below(self@, name@),
    {
        let mut names = text::clone_texts(&self.names);
        let ghost before = text::texts(names@);
        names.push(name.to_string());
        proof {
            assert(text::texts(names@) =~= before.push(name@));
        }
        StoragePath { root: self.root.clone(), names }
    }

    /// The path without its last name; none for a root.
    pub fn parent(&self) -> (r: Option<StoragePath>)
        ensures
            match r {
                Some(p) => self@.names.len() > 0 && p@ == (PathModel {
                    root: self@.root,
                    names: self@.names.drop_last(),
                }),
                None => self@.names.len() == 0,
            },
    {
        let mut names = text::clone_texts(&self.names);
        if names.len() == 0 {
            return None;
        }
        let ghost before = text::texts(names@);
        let _ = names.pop();
        proof {
            assert(text::texts(names@) =~= before.drop_last());
        }
        Some(StoragePath { root: self.root.clone(), names })
    }

    /// Whether two paths are the same.
    pub fn same_as(&self, other: &StoragePath) -> (r: bool)
        ensures
            r == (self@ == other@),
    {
        if !text::str_eq(self.root.as_str(), other.root.as_str()) {
            return false;
        }
        if self.names.len() != other.names.len() {
            proof {
                assert(self@.names.len() != other@.names.len());
            }
            return false;
        }
        let mut i: usize = 0;
        while i < self.names.len()
            invariant
                i <= self.names@.len(),
                self.names@.len() == other.names@.len(),
                self.root@ == other.root@,
                forall|j: int| 0 <= j < i ==> self@.names[j] == other@.names[j],
            decreases self.names@.len() - i,
        {
            if !text::str_eq(self.names[i].as_str(), other.names[i].as_str()) {
                proof {
                    assert(self@.names[i as int] != other@.names[i as int]);
                }
                return false;
            }
            i += 1;
        }
        proof {
            assert(self@.names =~= other@.names);
        }
        true
    }
}

/// The digit of a hexadecimal number.
pub open spec fn hex_char(n: int) -> char {
    if n < 10 {
        (n + '0' as int) as char
    } else {
        (n - 10 + 'a' as int) as char
    }
}

/// Bytes as hexadecimal text, two digits each.
pub open spec fn hex_text(bytes: Seq<u8>) -> Seq<char>
    decreases bytes.len(),
{
    if bytes.len() == 0 {
        Seq::empty()
    } else {
        hex_text(bytes.drop_last()).push(hex_char(bytes.last() as int / 16)).push(
            hex_char(bytes.last() as int % 16),
        )
    }
}

fn hex_digit(n: u8) -> (r: char)
    requires
        n < 16,
    ensures
        r == hex_char(n as int),
{
    if n < 10 {
        (48 + n) as char
    } else {
        (87 + n) as char
    }
}

/// Bytes as hexadecimal text.
pub fn hex_encode(bytes: &[u8]) -> (r: String)
    ensures
        r@ == hex_text(bytes@),
{
    let mut out = String::new();
    let mut i: usize = 0;
    proof {
        assert(out@ =~= hex_text(bytes@.take(0)));
    }
    while i < bytes.len()
        invariant
            i <= bytes@.len(),
            out@ == hex_text(bytes@.take(i as int)),
        decreases bytes@.len() - i,
    {
        proof {
            assert(bytes@.take(i as int + 1).drop_last() =~= bytes@.take(i as int));
        }
        let b: u8 = bytes[i];
        text::push_char(&mut out, hex_digit(b / 16));
        text::push_char(&mut out, hex_digit(b % 16));
        i += 1;
    }
    proof {
        assert(bytes@.take(bytes@.len() as int) == bytes@);
    }
    out
}

/// The directory of the images.
pub fn asset_root_dir(data_dir: &StoragePath) -> (r: StoragePath)
    ensures
        r@ == below(data_dir@, "assets"@),
{
    data_dir.join("assets")
}

/// The directory of an owner's images, of users or of servers: named by the
/// owner's id in hexadecimal.
pub open spec fn owner_dir(data_dir: PathModel, group: Seq<char>, id: Seq<char>) -> PathModel {
    below(
        below(below(data_dir, "assets"@), group),
        hex_text(vstd::utf8::encode_utf8(text::trimmed(id))),
    )
}

/// The directory of a user's avatar.
pub fn user_avatar_asset_dir(data_dir: &StoragePath, username: &str) -> (r: StoragePath)
    ensures
        r@ == owner_dir(data_dir@, "avatars"@, username@),
{
    let name = text::trim(username);
    asset_root_dir(data_dir).join("avatars").join(hex_encode(name.as_bytes()).as_str())
}

/// The directory of a server's images.
pub fn server_asset_dir(data_dir: &StoragePath, server_id: &str) -> (r: StoragePath)
    ensures
        r@ == owner_dir(data_dir@, "servers"@, server_id@),
{
    let id = text::trim(server_id);
    asset_root_dir(data_dir).join("servers").join(hex_encode(id.as_bytes()).as_str())
}

/// The file of an image's data.
pub open spec fn bin_path(base_dir: PathModel, kind: Seq<char>) -> PathModel {
    below(base_dir, kind + ".bin"@)
}

/// The file of what is recorded of an image.
pub open spec fn meta_path(base_dir: PathModel, kind: Seq<char>) -> PathModel {
    below(base_dir, kind + ".json"@)
}

/// The files of an image: its data, and what is recorded of it.
pub fn asset_file_paths(base_dir: StoragePath, kind: &str) -> (r: (StoragePath, StoragePath))
    ensures
        r.0@ == bin_path(base_dir@, kind@),
        r.1@ == meta_path(base_dir@, kind@),
{
    (
        base_dir.join(text::join2(kind, ".bin").as_str()),
        base_dir.join(text::join2(kind, ".json").as_str()),
    )
}

/// The directory of the data: the one that is configured, or else the program's.
pub fn canonical_data_dir(configured: Option<StoragePath>, program_dir: &StoragePath) -> (r:
    StoragePath)
    ensures
        r@ == (match configured {
            Some(dir) => dir@,
            None => program_dir@,
        }),
{
    match configured {
        Some(dir) => dir,
        None => program_dir.copy(),
    }
}

/// The directory that the data had in earlier versions: the one above the
/// program's, or the program's where that has none above.
pub fn legacy_data_dir(program_dir: &StoragePath) -> (r: StoragePath)
    ensures
        r@ == (if program_dir@.names.len() > 0 {
            PathModel { root: program_dir@.root, names: program_dir@.names.drop_last() }
        } else {
            program_dir@
        }),
{
    match program_dir.parent() {
        Some(dir) => dir,
        None => program_dir.copy(),
    }
}

/// Whether the data of an earlier version has to be taken over: it is there, and it
/// is not the data in use.
pub fn needs_migration(legacy_db: &StoragePath, db: &StoragePath, legacy_exists: bool) -> (r: bool)
    ensures
        r == (legacy_db@ != db@ && legacy_exists),
{
    !legacy_db.same_as(db) && legacy_exists
}

/// Whether an entry of an earlier version's uploads has to be copied: a file that is
/// not there yet.
pub fn needs_copy(is_file: bool, target_exists: bool) -> (r: bool)
    ensures
        r == (is_file && !target_exists),
{
    is_file && !target_exists
}

/// A text with every quote doubled.
pub open spec fn quotes_doubled(s: Seq<char>) -> Seq<char>
    decreases s.len(),
{
    if s.len() == 0 {
        s
    } else if s.last() == '\'' {
        quotes_doubled(s.drop_last()).push('\'').push('\'')
    } else {
        quotes_doubled(s.drop_last()).push(s.last())
    }
}

/// A text as a string of SQL: in quotes, with those in it doubled.
pub open spec fn sql_text(s: Seq<char>) -> Seq<char> {
    "'"@ + quotes_doubled(s) + "'"@
}

/// A path as a string of SQL.
pub fn sqlite_literal(path: &str) -> (r: String)
    ensures
        r@ == sql_text(path@),
{
    let chars = text::chars_of(path);
    let mut out = "'".to_string();
    let mut i: usize = 0;
    proof {
        assert(out@ =~= "'"@ + quotes_doubled(path@.take(0)));
    }
    while i < chars.len()
        invariant
            chars@ == path@,
            i <= chars@.len(),
            out@ == "'"@ + quotes_doubled(path@.take(i as int)),
        decreases chars@.len() - i,
    {
        let ghost before = quotes_doubled(path@.take(i as int));
        proof {
            assert(path@.take(i as int + 1).drop_last() =~= path@.take(i as int));
        }
        let c = chars[i];
        text::push_char(&mut out, c);
        if c == '\'' {
            text::push_char(&mut out, '\'');
            proof {
                assert(out@ =~= "'"@ + before.push('\'').push('\''));
            }
        } else {
            proof {
                assert(out@ =~= "'"@ + before.push(c));
            }
        }
        i += 1;
    }
    proof {
        assert(path@.take(path@.len() as int) == path@);
    }
    out.append("'");
    out
}

/// The statement that opens the data of an earlier version.
pub fn attach_statement(path: &str) -> (r: String)
    ensures
        r@ == "ATTACH DATABASE "@ + sql_text(path@) + " AS legacy"@,
{
    text::join3("ATTACH DATABASE ", sqlite_literal(path).as_str(), " AS legacy")
}

// ---------------------------------------------------------------------------
// Images in data URLs
// ---------------------------------------------------------------------------

/// The parts of a text before and after the first occurrence of a character.
pub open spec fn split_first(s: Seq<char>, c: char) -> Option<(Seq<char>, Seq<char>)>
    decreases s.len(),
{
    if s.len() == 0 {
        None
    } else if s[0] == c {
        Some((Seq::empty(), s.drop_first()))
    } else {
        match split_first(s.drop_first(), c) {
            Some((before, after)) => Some((seq![s[0]] + before, after)),
            None => None,
        }
    }
}

/// A part without a character, the character, and the rest are split there.
pub proof fn split_first_found(before: Seq<char>, c: char, after: Seq<char>)
    requires
        !before.contains(c),
    ensures
        split_first(before + seq![c] + after, c) == Some((before, after)),
    decreases before.len(),
{
    let s = before + seq![c] + after;
    if before.len() == 0 {
        assert(s[0] == c);
        assert(s.drop_first() =~= after);
        assert(before =~= Seq::<char>::empty());
    } else {
        assert(s[0] == before[0]);
        let rest = before.drop_first();
        assert(!rest.contains(c)) by {
            if rest.contains(c) {
                let i = choose|i: int| 0 <= i < rest.len() && rest[i] == c;
                assert(before[i + 1] == c);
            }
        }
        assert(s.drop_first() =~= rest + seq![c] + after);
        split_first_found(rest, c, after);
        assert(seq![before[0]] + rest =~= before);
    }
}

/// A text without a character is not split at it.
pub proof fn split_first_missing(s: Seq<char>, c: char)
    requires
        !s.contains(c),
    ensures
        split_first(s, c) is None,
    decreases s.len(),
{
    if s.len() > 0 {
        assert(s[0] != c);
        assert(!s.drop_first().contains(c)) by {
            if s.drop_first().contains(c) {
                let i = choose|i: int| 0 <= i < s.drop_first().len() && s.drop_first()[i] == c;
                assert(s[i + 1] == c);
            }
        }
        split_first_missing(s.drop_first(), c);
    }
}

/// What is wrong with a data URL.
#[derive(Debug, Clone, Copy, PartialEq, Eq, Structural)]
pub enum DataUrlError {
    Format,
    NotBase64,
    Undecodable,
}

impl DataUrlError {
    pub open spec fn text(self) -> Seq<char> {
        match self {
            DataUrlError::Format => "Неверный формат data URL"@,
            DataUrlError::NotBase64 => "Поддерживается только base64 data URL"@,
            DataUrlError::Undecodable => "Не удалось декодировать base64"@,
        }
    }

    /// What is wrong, in words.
    pub fn message(&self) -> (r: &'static str)
        ensures
            r@ == self.text(),
    {
        match self {
            DataUrlError::Format => "Неверный формат data URL",
            DataUrlError::NotBase64 => "Поддерживается только base64 data URL",
            DataUrlError::Undecodable => "Не удалось декодировать base64",
        }
    }
}

/// The type and the encoded data of a data URL. It starts with `data:`; up to the
/// first comma stand the type and options, of which `base64` has to be one.
pub open spec fn data_url_parts(value: Seq<char>) -> Result<(Seq<char>, Seq<char>), DataUrlError> {
    let url = text::trimmed(value);
    if !"data:"@.is_prefix_of(url) {
        Err(DataUrlError::Format)
    } else {
        match split_first(url.skip("data:"@.len() as int), ',') {
            None => Err(DataUrlError::Format),
            Some((meta, payload)) => if text::split_on(meta, ';').contains("base64"@) {
                Ok((text::split_on(meta, ';')[0], payload))
            } else {
                Err(DataUrlError::NotBase64)
            },
        }
    }
}

proof fn split_on_is_inhabited(s: Seq<char>, sep: char)
    ensures
        text::split_on(s, sep).len() > 0,
    decreases s.len(),
{
    if s.len() > 0 {
        split_on_is_inhabited(s.drop_last(), sep);
    }
}

/// The type and the encoded data of a data URL.
pub fn split_data_url(value: &str) -> (r: Result<(String, String), DataUrlError>)
    ensures
        match r {
            Ok(parts) => data_url_parts(value@) == Ok::<(Seq<char>, Seq<char>), DataUrlError>(
                (parts.0@, parts.1@),
            ),
            Err(e) => data_url_parts(value@) == Err::<(Seq<char>, Seq<char>), DataUrlError>(e),
        },
{
    let url = text::trim(value);
    let rest = match text::strip_prefix(url, "data:") {
        Some(rest) => {
            proof {
                assert(("data:"@ + rest@).subrange(0, "data:"@.len() as int) =~= "data:"@);
                assert(url@.skip("data:"@.len() as int) =~= rest@);
            }
            rest
        },
        None => {
            return Err(DataUrlError::Format);
        },
    };
    match text::split_once(rest, ',') {
        None => {
            proof {
                split_first_missing(rest@, ',');
            }
            Err(DataUrlError::Format)
        },
        Some((meta, payload)) => {
            proof {
                split_first_found(meta@, ',', payload@);
                split_on_is_inhabited(meta@, ';');
            }
            let parts = text::split(meta, ';');
            if text::contains_text(&parts, "base64") {
                proof {
                    assert(text::texts(parts@)[0] == parts@[0]@);
                }
                Ok((parts[0].clone(), payload.to_string()))
            } else {
                Err(DataUrlError::NotBase64)
            }
        },
    }
}

/// `base64::DecodeError`, what is wrong with encoded data.
#[verifier::external_type_specification]
#[verifier::external_body]
pub struct ExDecodeError(base64::DecodeError);

/// The bytes that a text encodes in base64 with the standard alphabet and padding,
/// if it does.
pub uninterp spec fn base64_bytes(s: Seq<char>) -> Option<Seq<u8>>;

/// Calls `Engine::decode` of the `STANDARD` engine of base64.
#[verifier::external_body]
fn decode_base64(s: &str) -> (r: Result<Vec<u8>, base64::DecodeError>)
    ensures
        match r {
            Ok(bytes) => base64_bytes(s@) == Some(bytes@),
            Err(_) => base64_bytes(s@) is None,
        },
{
    base64::engine::general_purpose::STANDARD.decode(s)
}

/// An image from its type and what its data was decoded to, if it could be.
pub fn decoded_image(mime: String, data: Option<Vec<u8>>) -> (r: Result<
    (String, Vec<u8>),
    DataUrlError,
>)
    ensures
        match r {
            Ok(image) => data == Some(image.1) && image.0@ == mime@,
            Err(e) => data is None && e == DataUrlError::Undecodable,
        },
{
    match data {
        Some(bytes) => Ok((mime, bytes)),
        None => Err(DataUrlError::Undecodable),
    }
}

/// The image in a data URL: its type and its bytes.
pub open spec fn image_in(value: Seq<char>) -> Result<(Seq<char>, Seq<u8>), DataUrlError> {
    match data_url_parts(value) {
        Err(e) => Err(e),
        Ok((mime, payload)) => match base64_bytes(payload) {
            Some(bytes) => Ok((mime, bytes)),
            None => Err(DataUrlError::Undecodable),
        },
    }
}

/// The image in a data URL: its type and its bytes.
pub fn normalize_data_url(value: &str) -> (r: Result<(String, Vec<u8>), DataUrlError>)
    ensures
        match r {
            Ok(image) => image_in(value@) == Ok::<(Seq<char>, Seq<u8>), DataUrlError>(
                (image.0@, image.1@),
            ),
            Err(e) => image_in(value@) == Err::<(Seq<char>, Seq<u8>), DataUrlError>(e),
        },
{
    match split_data_url(value) {
        Err(e) => Err(e),
        Ok((mime, payload)) => {
            let data = match decode_base64(payload.as_str()) {
                Ok(bytes) => Some(bytes),
                Err(_) => None,
            };
            decoded_image(mime, data)
        },
    }
}

/// A new image of a server, where it was decided whether the user may manage the
/// server. A data URL that is not blank but holds no image is an internal error.
pub fn set_server_image(may_manage: bool, data_url: &str) -> (r: Result<
    (String, Vec<u8>),
    Refusal,
>)
    ensures
        match r {
            Ok(image) => may_manage && !text::blank(data_url@) && image_in(data_url@) == Ok::<
                (Seq<char>, Seq<u8>),
                DataUrlError,
            >((image.0@, image.1@)),
            Err(e) => if !may_manage {
                e == Refusal::Forbidden
            } else if text::blank(data_url@) {
                e == Refusal::DataUrlMissing
            } else {
                image_in(data_url@) is Err && e == Refusal::Internal
            },
        },
{
    if !may_manage {
        return Err(Refusal::Forbidden);
    }
    if text::is_blank(data_url) {
        return Err(Refusal::DataUrlMissing);
    }
    match normalize_data_url(data_url) {
        Ok(image) => Ok(image),
        Err(_) => Err(Refusal::Internal),
    }
}

// ---------------------------------------------------------------------------
// Images in files and in the store
// ---------------------------------------------------------------------------

/// Whether a server can have an image of a kind: an avatar or a banner.
pub fn is_asset_kind(kind: &str) -> (r: bool)
    ensures
        r == (kind@ == "avatar"@ || kind@ == "banner"@),
{
    text::str_eq(kind, "avatar") || text::str_eq(kind, "banner")
}

/// What is recorded of an image beside its data.
#[derive(Debug)]
pub struct AssetMeta {
    pub mime_type: String,
    pub updated_at: Option<Timestamp>,
}

/// The model of what is recorded of an image.
pub struct MetaModel {
    pub mime_type: Seq<char>,
    pub updated_at: Option<Timestamp>,
}

impl View for AssetMeta {
    type V = MetaModel;

    open spec fn view(&self) -> MetaModel {
        MetaModel { mime_type: self.mime_type@, updated_at: self.updated_at }
    }
}

/// The files of an image: where they lie, and what stands in them.
#[derive(Debug)]
pub struct AssetFiles {
    pub bin_path: StoragePath,
    pub data: Vec<u8>,
    pub meta_path: StoragePath,
    pub meta: AssetMeta,
}

/// An image: its type, its data, and when it was last changed, if that is known.
pub type ImageModel = (Seq<char>, Seq<u8>, Option<Timestamp>);

/// Whether files are those in which an image is written.
pub open spec fn are_files_of(
    written: AssetFiles,
    dir: PathModel,
    kind: Seq<char>,
    image: ImageModel,
) -> bool {
    &&& written.bin_path@ == bin_path(dir, kind)
    &&& written.data@ == image.1
    &&& written.meta_path@ == meta_path(dir, kind)
    &&& written.meta@ == (MetaModel { mime_type: image.0, updated_at: image.2 })
}

/// The files in which an image is written.
pub fn asset_files(
    base_dir: StoragePath,
    kind: &str,
    mime_type: &str,
    data: Vec<u8>,
    updated_at: Option<Timestamp>,
) -> (r: AssetFiles)
    ensures
        are_files_of(r, base_dir@, kind@, (mime_type@, data@, updated_at)),
{
    let (bin_path, meta_path) = asset_file_paths(base_dir, kind);
    let meta = AssetMeta { mime_type: mime_type.to_string(), updated_at };
    AssetFiles { bin_path, data, meta_path, meta }
}

/// The image that its files hold: none without data; its type is what is recorded of
/// it, or else that of any bytes.
pub open spec fn image_of(data: Seq<u8>, meta: Option<MetaModel>) -> Option<ImageModel> {
    if data.len() == 0 {
        None
    } else {
        match meta {
            Some(m) => Some((m.mime_type, data, m.updated_at)),
            None => Some(("application/octet-stream"@, data, None)),
        }
    }
}

/// An image that was read from its files.
pub fn image_from_files(data: Vec<u8>, meta: Option<AssetMeta>) -> (r: Option<
    (String, Vec<u8>, Option<Timestamp>),
>)
    ensures
        (match r {
            Some(image) => Some((image.0@, image.1@, image.2)),
            None => None,
        }) == image_of(
            data@,
            (match meta {
                Some(m) => Some(m@),
                None => None,
            }),
        ),
{
    if data.len() == 0 {
        return None;
    }
    match meta {
        Some(m) => Some((m.mime_type, data, m.updated_at)),
        None => Some(("application/octet-stream".to_string(), data, None)),
    }
}

/// Whether an image from its files counts: it has a type and data.
pub open spec fn usable(image: Option<(String, Vec<u8>)>) -> bool {
    match image {
        Some(pair) => pair.0@.len() > 0 && pair.1@.len() > 0,
        None => false,
    }
}

/// Whether an image from its files counts.
pub fn is_usable(image: &Option<(String, Vec<u8>)>) -> (r: bool)
    ensures
        r == usable(*image),
{
    match image {
        Some(pair) => !pair.0.as_str().is_empty() && pair.1.len() > 0,
        None => false,
    }
}

/// The image of a server: that of the files where it counts, else that of the store
/// where it has data. Says whether it comes from the store, and so has yet to be
/// written to files.
pub fn choose_image(
    kind: &str,
    from_files: Option<(String, Vec<u8>)>,
    mime: Option<String>,
    data: Option<Vec<u8>>,
) -> (r: Option<(String, Vec<u8>, bool)>)
    ensures
        match r {
            Some(image) => (kind@ == "avatar"@ || kind@ == "banner"@) && if usable(from_files) {
                !image.2 && from_files == Some((image.0, image.1))
            } else {
                image.2 && mime == Some(image.0) && data == Some(image.1) && image.1@.len() > 0
            },
            None => !(kind@ == "avatar"@ || kind@ == "banner"@) || (!usable(from_files) && !(mime
                is Some && data is Some && data->0@.len() > 0)),
        },
{
    if !is_asset_kind(kind) {
        return None;
    }
    if is_usable(&from_files) {
        return match from_files {
            Some((m, d)) => Some((m, d, false)),
            None => None,
        };
    }
    match (mime, data) {
        (Some(m), Some(d)) => if d.len() > 0 {
            Some((m, d, true))
        } else {
            None
        },
        _ => None,
    }
}

/// Whether an image of a server that the store has has yet to be written to files.
pub fn needs_image_file(
    mime: &Option<String>,
    data: &Option<Vec<u8>>,
    file_exists: bool,
) -> (r: bool)
    ensures
        r == (mime is Some && data is Some && !file_exists),
{
    mime.is_some() && data.is_some() && !file_exists
}

// ---------------------------------------------------------------------------
// Laws
// ---------------------------------------------------------------------------

/// Hexadecimal text has two digits for each byte, and tells bytes apart.
pub proof fn hex_text_injective(a: Seq<u8>, b: Seq<u8>)
    ensures
        hex_text(a).len() == 2 * a.len(),
        hex_text(a) == hex_text(b) ==> a == b,
    decreases a.len(),
{
    if a.len() > 0 {
        hex_text_injective(a.drop_last(), b);
    }
    hex_length(b);
    if hex_text(a) == hex_text(b) {
        hex_length(a);
        if a.len() > 0 {
            let x = hex_text(a);
            let y = hex_text(b);
            let ia = hex_text(a.drop_last());
            let ib = hex_text(b.drop_last());
            assert(x.take(x.len() - 2) =~= ia);
            assert(y.take(y.len() - 2) =~= ib);
            hex_text_injective(a.drop_last(), b.drop_last());
            assert(x[x.len() - 1] == hex_char(a.last() as int % 16));
            assert(y[y.len() - 1] == hex_char(b.last() as int % 16));
            assert(x[x.len() - 2] == hex_char(a.last() as int / 16));
            assert(y[y.len() - 2] == hex_char(b.last() as int / 16));
            assert(a.last() == b.last());
            assert(a =~= a.drop_last().push(a.last()));
            assert(b =~= b.drop_last().push(b.last()));
        } else {
            assert(a =~= b);
        }
    }
}

proof fn hex_length(a: Seq<u8>)
    ensures
        hex_text(a).len() == 2 * a.len(),
    decreases a.len(),
{
    if a.len() > 0 {
        hex_length(a.drop_last());
    }
}

/// The names of directories hold lower-case hexadecimal digits only, whatever an
/// owner is called, so that they never lead elsewhere.
pub proof fn hex_text_is_plain(a: Seq<u8>)
    ensures
        forall|i: int|
            0 <= i < hex_text(a).len() ==> crate::ids::hex_digit(#[trigger] hex_text(a)[i]),
    decreases a.len(),
{
    if a.len() > 0 {
        hex_text_is_plain(a.drop_last());
        let rest = hex_text(a.drop_last());
        assert forall|i: int| 0 <= i < hex_text(a).len() implies crate::ids::hex_digit(
            #[trigger] hex_text(a)[i],
        ) by {
            if i < rest.len() {
                assert(hex_text(a)[i] == rest[i]);
            }
        }
    }
}

/// Two owners whose names differ, but for white space at their ends, have different
/// directories; users and servers never share one.
pub proof fn owners_have_their_own_directory(
    data_dir: PathModel,
    group_a: Seq<char>,
    a: Seq<char>,
    group_b: Seq<char>,
    b: Seq<char>,
)
    requires
        owner_dir(data_dir, group_a, a) == owner_dir(data_dir, group_b, b),
    ensures
        group_a == group_b,
        text::trimmed(a) == text::trimmed(b),
{
    let x = owner_dir(data_dir, group_a, a).names;
    let y = owner_dir(data_dir, group_b, b).names;
    let n = data_dir.names.len() as int;
    assert(x[n + 1] == group_a && y[n + 1] == group_b);
    let ha = vstd::utf8::encode_utf8(text::trimmed(a));
    let hb = vstd::utf8::encode_utf8(text::trimmed(b));
    assert(x[n + 2] == hex_text(ha) && y[n + 2] == hex_text(hb));
    hex_text_injective(ha, hb);
    vstd::utf8::encode_utf8_decode_utf8(text::trimmed(a));
    vstd::utf8::encode_utf8_decode_utf8(text::trimmed(b));
}

/// What a file of an image can hold.
pub enum FileModel {
    Data(Seq<u8>),
    Meta(MetaModel),
}

/// The image of a kind in a directory, as files hold it.
pub open spec fn image_at(
    files: Map<PathModel, FileModel>,
    dir: PathModel,
    kind: Seq<char>,
) -> Option<ImageModel> {
    let meta = if files.contains_key(meta_path(dir, kind)) {
        match files[meta_path(dir, kind)] {
            FileModel::Meta(m) => Some(m),
            FileModel::Data(_) => None,
        }
    } else {
        None
    };
    if files.contains_key(bin_path(dir, kind)) {
        match files[bin_path(dir, kind)] {
            FileModel::Data(data) => image_of(data, meta),
            FileModel::Meta(_) => None,
        }
    } else {
        None
    }
}

/// Files after an image was written to its own.
pub open spec fn after_write(
    files: Map<PathModel, FileModel>,
    written: AssetFiles,
) -> Map<PathModel, FileModel> {
    files.insert(written.bin_path@, FileModel::Data(written.data@)).insert(
        written.meta_path@,
        FileModel::Meta(written.meta@),
    )
}

/// Files after those of an image were removed.
pub open spec fn after_clear(
    files: Map<PathModel, FileModel>,
    dir: PathModel,
    kind: Seq<char>,
) -> Map<PathModel, FileModel> {
    files.remove(bin_path(dir, kind)).remove(meta_path(dir, kind))
}

proof fn paths_differ(dir_a: PathModel, a: Seq<char>, dir_b: PathModel, b: Seq<char>)
    ensures
        bin_path(dir_a, a) != meta_path(dir_b, b),
        bin_path(dir_a, a) == bin_path(dir_b, b) ==> dir_a == dir_b && a == b,
        meta_path(dir_a, a) == meta_path(dir_b, b) ==> dir_a == dir_b && a == b,
{
    reveal_strlit(".bin");
    reveal_strlit(".json");
    let bin_a = a + ".bin"@;
    let bin_b = b + ".bin"@;
    let json_a = a + ".json"@;
    let json_b = b + ".json"@;
    assert(bin_path(dir_a, a).names.last() == bin_a);
    assert(bin_path(dir_b, b).names.last() == bin_b);
    assert(meta_path(dir_a, a).names.last() == json_a);
    assert(meta_path(dir_b, b).names.last() == json_b);
    assert(bin_a[bin_a.len() - 2] == 'i');
    assert(json_b[json_b.len() - 2] == 'o');
    if bin_path(dir_a, a) == bin_path(dir_b, b) {
        assert(bin_a.take(bin_a.len() - 4) =~= a);
        assert(bin_b.take(bin_b.len() - 4) =~= b);
        assert(bin_path(dir_a, a).names.drop_last() =~= dir_a.names);
        assert(bin_path(dir_b, b).names.drop_last() =~= dir_b.names);
    }
    if meta_path(dir_a, a) == meta_path(dir_b, b) {
        assert(json_a.take(json_a.len() - 5) =~= a);
        assert(json_b.take(json_b.len() - 5) =~= b);
        assert(meta_path(dir_a, a).names.drop_last() =~= dir_a.names);
        assert(meta_path(dir_b, b).names.drop_last() =~= dir_b.names);
    }
}

/// An image that was written is read back as it was, with its type and the time of its
/// last change; one without data is read as none.
pub proof fn written_images_are_read_back(
    files: Map<PathModel, FileModel>,
    written: AssetFiles,
    dir: PathModel,
    kind: Seq<char>,
    image: ImageModel,
)
    requires
        are_files_of(written, dir, kind, image),
    ensures
        image_at(after_write(files, written), dir, kind) == (if image.1.len() > 0 {
            Some(image)
        } else {
            None
        }),
{
    paths_differ(dir, kind, dir, kind);
}

/// An image whose files were removed is read as none.
pub proof fn cleared_images_are_gone(
    files: Map<PathModel, FileModel>,
    dir: PathModel,
    kind: Seq<char>,
)
    ensures
        image_at(after_clear(files, dir, kind), dir, kind) is None,
{
}

/// Writing or removing an image leaves every other alone, be it of another kind or in
/// another directory.
pub proof fn images_are_separate(
    files: Map<PathModel, FileModel>,
    written: AssetFiles,
    dir: PathModel,
    kind: Seq<char>,
    image: ImageModel,
    other_dir: PathModel,
    other_kind: Seq<char>,
)
    requires
        are_files_of(written, dir, kind, image),
        dir != other_dir || kind != other_kind,
    ensures
        image_at(after_write(files, written), other_dir, other_kind) == image_at(
            files,
            other_dir,
            other_kind,
        ),
        image_at(after_clear(files, dir, kind), other_dir, other_kind) == image_at(
            files,
            other_dir,
            other_kind,
        ),
{
    paths_differ(dir, kind, other_dir, other_kind);
    paths_differ(other_dir, other_kind, dir, kind);
}

/// A string of SQL as it is read: quotes that are doubled stand for one; a single
/// one is not part of a string.
pub open spec fn sql_read(s: Seq<char>) -> Option<Seq<char>>
    decreases s.len(),
{
    if s.len() == 0 {
        Some(s)
    } else if s.last() == '\'' {
        if s.len() >= 2 && s[s.len() - 2] == '\'' {
            match sql_read(s.take(s.len() - 2)) {
                Some(t) => Some(t.push('\'')),
                None => None,
            }
        } else {
            None
        }
    } else {
        match sql_read(s.drop_last()) {
            Some(t) => Some(t.push(s.last())),
            None => None,
        }
    }
}

/// What is written as a string of SQL is read back as it was: nothing in a path ends
/// the string early.
pub proof fn sql_text_reads_back(s: Seq<char>)
    ensures
        sql_read(quotes_doubled(s)) == Some(s),
    decreases s.len(),
{
    if s.len() > 0 {
        sql_text_reads_back(s.drop_last());
        let rest = quotes_doubled(s.drop_last());
        if s.last() == '\'' {
            let t = rest.push('\'').push('\'');
            assert(t.take(t.len() - 2) =~= rest);
        } else {
            assert(rest.push(s.last()).drop_last() =~= rest);
        }
        assert(s =~= s.drop_last().push(s.last()));
    } else {
        assert(s =~= Seq::<char>::empty());
    }
}

/// A byte is written as two digits of `0` to `9` and `a` to `f`, the high one first.
pub proof fn bytes_are_two_digits(bytes: &[u8], r: String, i: int)
    requires
        call_ensures(hex_encode, (bytes,), r),
        0 <= i < bytes@.len(),
    ensures
        r@.len() == 2 * bytes@.len(),
        r@[2 * i] == "0123456789abcdef"@[bytes@[i] as int / 16],
        r@[2 * i + 1] == "0123456789abcdef"@[bytes@[i] as int % 16],
{
    hex_length(bytes@);
    hex_digit_at(bytes@, i);
    hex_char_is_a_digit(bytes@[i] as int / 16);
    hex_char_is_a_digit(bytes@[i] as int % 16);
}

proof fn hex_char_is_a_digit(n: int)
    requires
        0 <= n < 16,
    ensures
        hex_char(n) == "0123456789abcdef"@[n],
{
    reveal_strlit("0123456789abcdef");
}

proof fn hex_digit_at(bytes: Seq<u8>, i: int)
    requires
        0 <= i < bytes.len(),
    ensures
        hex_text(bytes)[2 * i] == hex_char(bytes[i] as int / 16),
        hex_text(bytes)[2 * i + 1] == hex_char(bytes[i] as int % 16),
    decreases bytes.len(),
{
    hex_length(bytes);
    hex_length(bytes.drop_last());
    if i < bytes.len() - 1 {
        hex_digit_at(bytes.drop_last(), i);
    }
}

/// Whether a path is another with names after it.
pub open spec fn leads_on(path: StoragePath, from: StoragePath, names: Seq<Seq<char>>) -> bool {
    &&& path.root@ == from.root@
    &&& path.names@.len() == from.names@.len() + names.len()
    &&& forall|i: int|
        0 <= i < from.names@.len() ==> (#[trigger] path.names@[i])@ == from.names@[i]@
    &&& forall|i: int|
        0 <= i < names.len() ==> path.names@[from.names@.len() + i]@ == #[trigger] names[i]
}

proof fn leads_on_by_model(path: StoragePath, from: StoragePath, names: Seq<Seq<char>>)
    requires
        path@.root == from@.root,
        path@.names == from@.names + names,
    ensures
        leads_on(path, from, names),
{
    let n = from.names@.len() as int;
    assert(path@.names.len() == path.names@.len());
    assert forall|i: int| 0 <= i < n implies (#[trigger] path.names@[i])@ == from.names@[i]@ by {
        assert(path@.names[i] == path.names@[i]@);
        assert(from@.names[i] == from.names@[i]@);
    }
    assert forall|i: int| 0 <= i < names.len() implies path.names@[n + i]@ == #[trigger] names[i] by {
        assert(path@.names[n + i] == path.names@[n + i]@);
    }
}

/// Joining leads one name further.
pub proof fn joining_leads_one_name_further(path: &StoragePath, name: &str, r: StoragePath)
    requires
        call_ensures(StoragePath::join, (path, name), r),
    ensures
        leads_on(r, *path, seq![name@]),
{
    assert(r@.names =~= path@.names + seq![name@]);
    leads_on_by_model(r, *path, seq![name@]);
}

/// The parent of what a path was joined to a name as is the path, and only a root has
/// none.
pub proof fn the_parent_is_one_name_back(path: &StoragePath, r: Option<StoragePath>)
    requires
        call_ensures(StoragePath::parent, (path,), r),
    ensures
        r is None <==> path.names@.len() == 0,
        r is Some ==> leads_on(*path, r->0, seq![path.names@.last()@]),
{
    if r is Some {
        assert(path@.names =~= r->0@.names + seq![path.names@.last()@]);
        leads_on_by_model(*path, r->0, seq![path.names@.last()@]);
    }
}

/// Images lie below `assets` in the directory of the data: a user's below `avatars`, a
/// server's below `servers`, each under the owner's name in hexadecimal.
pub proof fn where_images_lie(
    data_dir: &StoragePath,
    owner: &str,
    of_user: StoragePath,
    of_server: StoragePath,
    root: StoragePath,
)
    requires
        call_ensures(user_avatar_asset_dir, (data_dir, owner), of_user),
        call_ensures(server_asset_dir, (data_dir, owner), of_server),
        call_ensures(asset_root_dir, (data_dir,), root),
    ensures
        ({
            let own = hex_text(vstd::utf8::encode_utf8(text::trimmed(owner@)));
            &&& leads_on(of_user, *data_dir, seq!["assets"@, "avatars"@, own])
            &&& leads_on(of_server, *data_dir, seq!["assets"@, "servers"@, own])
            &&& leads_on(root, *data_dir, seq!["assets"@])
        }),
{
    let own = hex_text(vstd::utf8::encode_utf8(text::trimmed(owner@)));
    assert(of_user@.names =~= data_dir@.names + seq!["assets"@, "avatars"@, own]);
    leads_on_by_model(of_user, *data_dir, seq!["assets"@, "avatars"@, own]);
    assert(of_server@.names =~= data_dir@.names + seq!["assets"@, "servers"@, own]);
    leads_on_by_model(of_server, *data_dir, seq!["assets"@, "servers"@, own]);
    assert(root@.names =~= data_dir@.names + seq!["assets"@]);
    leads_on_by_model(root, *data_dir, seq!["assets"@]);
}

/// An image has two files, named by its kind: one for its data, one for what is
/// recorded of it.
pub proof fn what_image_files_are_called(
    base_dir: StoragePath,
    kind: &str,
    r: (StoragePath, StoragePath),
)
    requires
        call_ensures(asset_file_paths, (base_dir, kind), r),
    ensures
        leads_on(r.0, base_dir, seq![kind@ + ".bin"@]),
        leads_on(r.1, base_dir, seq![kind@ + ".json"@]),
{
    assert(r.0@.names =~= base_dir@.names + seq![kind@ + ".bin"@]);
    leads_on_by_model(r.0, base_dir, seq![kind@ + ".bin"@]);
    assert(r.1@.names =~= base_dir@.names + seq![kind@ + ".json"@]);
    leads_on_by_model(r.1, base_dir, seq![kind@ + ".json"@]);
}

/// The data lies where that is set, and else beside the program; old data lies one
/// directory up, if there is one.
pub proof fn where_data_lies(
    configured: Option<StoragePath>,
    program_dir: &StoragePath,
    r: StoragePath,
    old_data: StoragePath,
)
    requires
        call_ensures(canonical_data_dir, (configured, program_dir), r),
        call_ensures(legacy_data_dir, (program_dir,), old_data),
    ensures
        configured is Some ==> leads_on(r, configured->0, Seq::empty()),
        configured is None ==> leads_on(r, *program_dir, Seq::empty()),
        program_dir.names@.len() > 0 ==> leads_on(
            *program_dir,
            old_data,
            seq![program_dir.names@.last()@],
        ),
        program_dir.names@.len() == 0 ==> leads_on(old_data, *program_dir, Seq::empty()),
{
    let none = Seq::<Seq<char>>::empty();
    if configured is Some {
        assert(r@.names =~= configured->0@.names + none);
        leads_on_by_model(r, configured->0, none);
    } else {
        assert(r@.names =~= program_dir@.names + none);
        leads_on_by_model(r, *program_dir, none);
    }
    if program_dir.names@.len() > 0 {
        assert(program_dir@.names =~= old_data@.names + seq![program_dir.names@.last()@]);
        leads_on_by_model(*program_dir, old_data, seq![program_dir.names@.last()@]);
    } else {
        assert(old_data@.names =~= program_dir@.names + none);
        leads_on_by_model(old_data, *program_dir, none);
    }
}

/// Old data is taken over exactly if there is some and it lies elsewhere; a file of it is
/// copied exactly if nothing stands in its place.
pub proof fn when_old_data_is_taken_over(
    legacy_db: &StoragePath,
    db: &StoragePath,
    exists_there: bool,
    migrates: bool,
    is_file: bool,
    target_exists: bool,
    copies: bool,
)
    requires
        call_ensures(needs_migration, (legacy_db, db, exists_there), migrates),
        call_ensures(needs_copy, (is_file, target_exists), copies),
    ensures
        !exists_there ==> !migrates,
        exists_there ==> (migrates <==> !leads_on(*db, *legacy_db, Seq::empty())),
        copies <==> is_file && !target_exists,
{
    let none = Seq::<Seq<char>>::empty();
    if legacy_db@ == db@ {
        assert(db@.names =~= legacy_db@.names + none);
        leads_on_by_model(*db, *legacy_db, none);
    }
    if leads_on(*db, *legacy_db, none) {
        assert forall|i: int| 0 <= i < db.names@.len() implies db@.names[i] == legacy_db@.names[i] by {
            assert(db@.names[i] == db.names@[i]@);
            assert(legacy_db@.names[i] == legacy_db.names@[i]@);
        }
        assert(db@.names =~= legacy_db@.names);
    }
}

/// A string of SQL stands between two quotes, and what stands there reads back as it was.
pub proof fn paths_are_quoted(path: &str, r: String)
    requires
        call_ensures(sqlite_literal, (path,), r),
    ensures
        r@.len() >= 2,
        r@[0] == '\'',
        r@.last() == '\'',
        sql_read(r@.subrange(1, r@.len() - 1)) == Some(path@),
{
    reveal_strlit("'");
    assert(r@.subrange(1, r@.len() - 1) =~= quotes_doubled(path@));
    sql_text_reads_back(path@);
}

/// Old data is attached by its quoted path, as `legacy`.
pub proof fn how_old_data_is_attached(path: &str, quoted: String, r: String)
    requires
        call_ensures(sqlite_literal, (path,), quoted),
        call_ensures(attach_statement, (path,), r),
    ensures
        r@ == "ATTACH DATABASE "@ + quoted@ + " AS legacy"@,
{
}

/// A data URL with a type, options of which `base64` is one, and data after a comma is
/// taken apart there, whatever white space stands around it and whatever commas are in
/// the data.
pub proof fn data_urls_are_taken_apart(
    value: &str,
    r: Result<(String, String), DataUrlError>,
    meta: Seq<char>,
    payload: Seq<char>,
)
    requires
        call_ensures(split_data_url, (value,), r),
        text::trimmed(value@) == "data:"@ + (meta + seq![','] + payload),
        !meta.contains(','),
    ensures
        text::split_on(meta, ';').contains("base64"@) ==> r is Ok && r->Ok_0.0@ == text::split_on(
            meta,
            ';',
        )[0] && r->Ok_0.1@ == payload,
        !text::split_on(meta, ';').contains("base64"@) ==> r == Err::<
            (String, String),
            DataUrlError,
        >(DataUrlError::NotBase64),
{
    text::prefix_then_skip("data:"@, meta + seq![','] + payload);
    split_first_found(meta, ',', payload);
}

/// What does not start with `data:`, or has no comma after it, is no data URL.
pub proof fn what_is_no_data_url(
    value: &str,
    r: Result<(String, String), DataUrlError>,
    rest: Seq<char>,
)
    requires
        call_ensures(split_data_url, (value,), r),
        !"data:"@.is_prefix_of(text::trimmed(value@)) || (text::trimmed(value@) == "data:"@ + rest
            && !rest.contains(',')),
    ensures
        r == Err::<(String, String), DataUrlError>(DataUrlError::Format),
{
    if text::trimmed(value@) == "data:"@ + rest {
        text::prefix_then_skip("data:"@, rest);
        if !rest.contains(',') {
            split_first_missing(rest, ',');
        }
    }
}

/// The image in a data URL has the URL's type and what its data decodes to.
pub proof fn images_are_what_urls_hold(
    value: &str,
    parts: Result<(String, String), DataUrlError>,
    r: Result<(String, Vec<u8>), DataUrlError>,
)
    requires
        call_ensures(split_data_url, (value,), parts),
        call_ensures(normalize_data_url, (value,), r),
    ensures
        parts is Err ==> r is Err && r->Err_0 == parts->Err_0,
        parts is Ok ==> {
            let decoded = base64_bytes(parts->Ok_0.1@);
            &&& decoded is Some ==> r is Ok && r->Ok_0.0@ == parts->Ok_0.0@ && r->Ok_0.1@
                == decoded->0
            &&& decoded is None ==> r == Err::<(String, Vec<u8>), DataUrlError>(
                DataUrlError::Undecodable,
            )
        },
{
}

/// What was decoded is an image of the type, byte for byte.
pub proof fn images_are_what_was_decoded(
    mime: String,
    data: Option<Vec<u8>>,
    r: Result<(String, Vec<u8>), DataUrlError>,
)
    requires
        call_ensures(decoded_image, (mime, data), r),
    ensures
        data is Some ==> r is Ok && r->Ok_0.0@ == mime@ && r->Ok_0.1@ == data->0@,
        data is None ==> r == Err::<(String, Vec<u8>), DataUrlError>(DataUrlError::Undecodable),
{
}

/// A server's image is set only by who may manage it, to what a data URL holds.
pub proof fn who_sets_an_image(
    may_manage: bool,
    data_url: &str,
    image: Result<(String, Vec<u8>), DataUrlError>,
    r: Result<(String, Vec<u8>), Refusal>,
)
    requires
        call_ensures(normalize_data_url, (data_url,), image),
        call_ensures(set_server_image, (may_manage, data_url), r),
    ensures
        ({
            let blank = text::trimmed(data_url@).len() == 0;
            &&& r is Ok <==> may_manage && !blank && image is Ok
            &&& r is Ok ==> r->Ok_0.0@ == image->Ok_0.0@ && r->Ok_0.1@ == image->Ok_0.1@
            &&& !may_manage ==> r->Err_0 == Refusal::Forbidden
            &&& may_manage && blank ==> r->Err_0 == Refusal::DataUrlMissing
            &&& may_manage && !blank && image is Err ==> r->Err_0 == Refusal::Internal
        }),
{
}

/// The files of an image hold its data byte for byte, and its type and the time of its
/// change, where images of that kind lie.
pub proof fn images_are_written_as_they_are(
    base_dir: StoragePath,
    kind: &str,
    mime_type: &str,
    data: Vec<u8>,
    updated_at: Option<Timestamp>,
    r: AssetFiles,
)
    requires
        call_ensures(asset_files, (base_dir, kind, mime_type, data, updated_at), r),
    ensures
        leads_on(r.bin_path, base_dir, seq![kind@ + ".bin"@]),
        leads_on(r.meta_path, base_dir, seq![kind@ + ".json"@]),
        r.data@ == data@,
        r.meta.mime_type@ == mime_type@,
        r.meta.updated_at == updated_at,
{
    assert(r.meta@ == (MetaModel { mime_type: mime_type@, updated_at }));
    assert(r.bin_path@.names =~= base_dir@.names + seq![kind@ + ".bin"@]);
    leads_on_by_model(r.bin_path, base_dir, seq![kind@ + ".bin"@]);
    assert(r.meta_path@.names =~= base_dir@.names + seq![kind@ + ".json"@]);
    leads_on_by_model(r.meta_path, base_dir, seq![kind@ + ".json"@]);
}

/// An image is read from its files as they hold it; without data there is none, and
/// without a record of its type it is of no particular one.
pub proof fn images_are_read_as_they_are(
    data: Vec<u8>,
    meta: Option<AssetMeta>,
    r: Option<(String, Vec<u8>, Option<Timestamp>)>,
)
    requires
        call_ensures(image_from_files, (data, meta), r),
    ensures
        r is Some <==> data@.len() > 0,
        r is Some ==> {
            let (mime, bytes, updated_at) = r->0;
            &&& bytes@ == data@
            &&& meta is Some ==> mime@ == meta->0.mime_type@ && updated_at == meta->0.updated_at
            &&& meta is None ==> mime@ == "application/octet-stream"@ && updated_at is None
        },
{
}

/// Only avatars and banners are images of a server. The image of the files is shown if
/// it has a type and data, and else that of the store if it has data.
pub proof fn which_image_is_shown(
    kind: &str,
    from_files: Option<(String, Vec<u8>)>,
    mime: Option<String>,
    data: Option<Vec<u8>>,
    r: Option<(String, Vec<u8>, bool)>,
    known: bool,
)
    requires
        call_ensures(choose_image, (kind, from_files, mime, data), r),
        call_ensures(is_asset_kind, (kind,), known),
    ensures
        known <==> kind@ == "avatar"@ || kind@ == "banner"@,
        ({
            let (file_mime, file_data) = from_files->0;
            let (shown_mime, shown_data, from_store) = r->0;
            let in_files = from_files is Some && file_mime@.len() > 0 && file_data@.len() > 0;
            let in_store = mime is Some && data is Some && data->0@.len() > 0;
            &&& r is Some <==> known && (in_files || in_store)
            &&& r is Some && in_files ==> shown_mime@ == file_mime@ && shown_data@ == file_data@
                && !from_store
            &&& r is Some && !in_files ==> shown_mime@ == mime->0@ && shown_data@ == data->0@
                && from_store
        }),
{
}

/// An image of the store is written to files exactly if it has a type and data and is
/// not there yet.
pub proof fn when_an_image_is_written(
    mime: &Option<String>,
    data: &Option<Vec<u8>>,
    file_exists: bool,
    r: bool,
)
    requires
        call_ensures(needs_image_file, (mime, data, file_exists), r),
    ensures
        r <==> mime is Some && data is Some && !file_exists,
{
}

/// What is wrong with a data URL is said in words of its own.
pub proof fn what_data_url_errors_say(error: &DataUrlError, r: &'static str)
    requires
        call_ensures(DataUrlError::message, (error,), r),
    ensures
        error is Format ==> r@ == "Неверный формат data URL"@,
        error is NotBase64 ==> r@ == "Поддерживается только base64 data URL"@,
        error is Undecodable ==> r@ == "Не удалось декодировать base64"@,
{
}

/// An image from its files counts exactly if it is there and has a type and data.
pub proof fn which_images_count(image: &Option<(String, Vec<u8>)>, r: bool)
    requires
        call_ensures(is_usable, (image,), r),
    ensures
        ({
            let (mime, data) = image->0;
            r <==> image is Some && mime@.len() > 0 && data@.len() > 0
        }),
{
}

} // verus!
