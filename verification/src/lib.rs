//! The logic of the Vasak keyring.
//!
//! The keyring is a Secret Service daemon with an encrypted database, a PAM
//! module that delivers the master password at login, and the dialogs that ask
//! for a password when the login did not deliver it. This library holds what
//! they decide and compute, each function with its contract; reading, writing
//! and talking to the bus are left to the programs around it.
pub mod crypto;
pub mod dbus_api;
pub mod derivacion;
pub mod errores;
pub mod mapa;
pub mod pam;
pub mod pinentry;
pub mod portal_secret;
pub mod primitivas;
pub mod secret_service;
pub mod secreto;
pub mod session_crypto;
pub mod ssh_askpass;
pub mod texto;
pub mod unlock_socket;
