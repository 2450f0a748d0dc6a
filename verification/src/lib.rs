//! Profile-bound file encryption: named profiles own a curve25519 key pair
//! stored under a storage directory, and files are sealed into authenticated
//! envelopes against that profile's keys.

mod codec;
mod crypto;
mod errors;
mod keys;
mod memstore;
mod naming;
mod ops;
mod profile;
mod store;

pub use codec::deserialize_envelope;
pub use codec::serialize_envelope;
pub use codec::Envelope;
pub use crypto::generate_keypair;
pub use crypto::open_envelope;
pub use crypto::seal;
pub use crypto::KeyPair;
pub use errors::error;
pub use errors::error_without_parent;
pub use errors::AnyError;
pub use errors::ErrorKind;
pub use keys::create_keypair;
pub use keys::get_key_file_name;
pub use keys::key_file_exists;
pub use keys::keypair_exists;
pub use keys::read_keypair;
pub use keys::Key;
pub use memstore::MemStore;
pub use naming::get_decrypted_file_name;
pub use naming::get_encrypted_file_name;
pub use naming::has_envelope_extension;
pub use ops::create_profile;
pub use ops::create_storage_dir;
pub use ops::decrypt;
pub use ops::encrypt;
pub use ops::expand_storage_dir;
pub use ops::file_exists;
pub use ops::init;
pub use ops::profile_exists;
pub use ops::storage_dir_exists;
pub use profile::Profile;
pub use store::ContentMap;
pub use store::PathChars;
pub use store::PathSet;
pub use store::RecordMap;
pub use store::Storage;
