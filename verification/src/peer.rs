//! Per-peer session bundle.
//!
//! One peer of a call owns four sessions: an outbound and an inbound one
//! per media type, all sharing one secret but keyed independently. This is
//! the session layer of the browser peer; the host-side marshalling that
//! carries its buffers in and out is not part of the library.

use vstd::prelude::*;

use crate::crypto::{SuiteId, frame_bytes, parsed_header};
use crate::errors::SessionError;
use crate::receiver::{Receiver, StoreModel, store_after, store_lookup};
use crate::sender::Sender;

verus! {

/// The four sessions of one peer: audio and video senders, audio and video
/// receivers.
pub struct WasmPeer {
    pub s_audio: Sender,
    pub s_video: Sender,
    pub r_audio: Receiver,
    pub r_video: Receiver,
}

impl WasmPeer {
    /// Both directions and the two receivers are well-formed.
    pub open spec fn wf(self) -> bool {
        self.r_audio.wf() && self.r_video.wf()
    }

    /// Creates a peer whose outbound and inbound key ids coincide per media
    /// type: it can decrypt its own frames and those of a peer configured
    /// with the same two ids and secret.
    pub fn new(key_audio: u32, key_video: u32, suite: SuiteId, secret: &[u8]) -> (r: WasmPeer)
        ensures
            r.wf(),
            r.s_audio.spec_key_id() == key_audio as u64,
            r.s_video.spec_key_id() == key_video as u64,
            r.s_audio.spec_counter() == 0 && r.s_video.spec_counter() == 0,
            r.s_audio.spec_suite() == suite && r.s_video.spec_suite() == suite,
            r.r_audio.spec_suite() == suite && r.r_video.spec_suite() == suite,
            r.s_audio.spec_material() == Some(secret@),
            r.s_video.spec_material() == Some(secret@),
            r.r_audio.spec_store() == StoreModel::Standard(
                Map::<u64, Seq<u8>>::empty().insert(key_audio as u64, secret@),
            ),
            r.r_video.spec_store() == StoreModel::Standard(
                Map::<u64, Seq<u8>>::empty().insert(key_video as u64, secret@),
            ),
    {
        Self::new_full_duplex(key_audio, key_video, key_audio, key_video, suite, secret)
    }

    /// Creates a peer with four independent key ids: its own outbound audio
    /// and video ids, and the inbound ids its remote counterpart sends on.
    pub fn new_full_duplex(
        tx_audio: u32,
        tx_video: u32,
        rx_audio: u32,
        rx_video: u32,
        suite: SuiteId,
        secret: &[u8],
    ) -> (r: WasmPeer)
        ensures
            r.wf(),
            r.s_audio.spec_key_id() == tx_audio as u64,
            r.s_video.spec_key_id() == tx_video as u64,
            r.s_audio.spec_counter() == 0 && r.s_video.spec_counter() == 0,
            r.s_audio.spec_max_counter() == u64::MAX && r.s_video.spec_max_counter() == u64::MAX,
            r.s_audio.spec_suite() == suite && r.s_video.spec_suite() == suite,
            r.r_audio.spec_suite() == suite && r.r_video.spec_suite() == suite,
            r.s_audio.spec_material() == Some(secret@),
            r.s_video.spec_material() == Some(secret@),
            r.r_audio.spec_store() == StoreModel::Standard(
                Map::<u64, Seq<u8>>::empty().insert(rx_audio as u64, secret@),
            ),
            r.r_video.spec_store() == StoreModel::Standard(
                Map::<u64, Seq<u8>>::empty().insert(rx_video as u64, secret@),
            ),
    {
        let mut s_audio = Sender::with_cipher_suite(tx_audio as u64, suite);
        let _ = s_audio.set_encryption_key(secret);
        let mut s_video = Sender::with_cipher_suite(tx_video as u64, suite);
        let _ = s_video.set_encryption_key(secret);
        let mut r_audio = Receiver::with_cipher_suite(suite);
        let _ = r_audio.set_encryption_key(rx_audio as u64, secret);
        let mut r_video = Receiver::with_cipher_suite(suite);
        let _ = r_video.set_encryption_key(rx_video as u64, secret);
        WasmPeer { s_audio, s_video, r_audio, r_video }
    }

    /// Encrypts one audio frame under the outbound audio session; the other
    /// three sessions are untouched.
    pub fn encrypt_audio(&mut self, input: &[u8]) -> (r: Result<Vec<u8>, SessionError>)
        ensures
            final(self).s_video == old(self).s_video,
            final(self).r_audio == old(self).r_audio,
            final(self).r_video == old(self).r_video,
            final(self).s_audio.spec_key_id() == old(self).s_audio.spec_key_id(),
            final(self).s_audio.spec_suite() == old(self).s_audio.spec_suite(),
            final(self).s_audio.spec_max_counter() == old(self).s_audio.spec_max_counter(),
            final(self).s_audio.spec_material() == old(self).s_audio.spec_material(),
            r == Result::<Vec<u8>, SessionError>::Err(SessionError::NoActiveKey) <==> old(self).s_audio.spec_material() is None,
            old(self).s_audio.spec_material() is Some ==> (r == Result::<Vec<u8>, SessionError>::Err(
                SessionError::CounterExhausted,
            ) <==> old(self).s_audio.spec_counter() >= old(self).s_audio.spec_max_counter()),
            old(self).s_audio.spec_material() is Some && old(self).s_audio.spec_counter() < old(self).s_audio.spec_max_counter() && input@.len() < 0x1000_0000 ==> r is Ok,
            r matches Ok(f) ==> {
                &&& old(self).s_audio.spec_material() matches Some(m) && f@ == frame_bytes(
                    old(self).s_audio.spec_suite(),
                    old(self).s_audio.spec_key_id(),
                    old(self).s_audio.spec_counter(),
                    m,
                    input@,
                )
                &&& parsed_header(f@) matches Some(h) && h.0 == old(self).s_audio.spec_key_id()
                    && h.1 == old(self).s_audio.spec_counter() && 1 <= h.2 && f@.len() == h.2
                    + input@.len() + 16
                &&& final(self).s_audio.spec_counter() == old(self).s_audio.spec_counter() + 1
            },
            r is Err ==> final(self).s_audio.spec_counter() == old(self).s_audio.spec_counter(),
    {
        self.s_audio.encrypt_frame(input)
    }

    /// Encrypts one video frame under the outbound video session; the other
    /// three sessions are untouched.
    pub fn encrypt_video(&mut self, input: &[u8]) -> (r: Result<Vec<u8>, SessionError>)
        ensures
            final(self).s_audio == old(self).s_audio,
            final(self).r_audio == old(self).r_audio,
            final(self).r_video == old(self).r_video,
            final(self).s_video.spec_key_id() == old(self).s_video.spec_key_id(),
            final(self).s_video.spec_suite() == old(self).s_video.spec_suite(),
            final(self).s_video.spec_max_counter() == old(self).s_video.spec_max_counter(),
            final(self).s_video.spec_material() == old(self).s_video.spec_material(),
            r == Result::<Vec<u8>, SessionError>::Err(SessionError::NoActiveKey) <==> old(self).s_video.spec_material() is None,
            old(self).s_video.spec_material() is Some ==> (r == Result::<Vec<u8>, SessionError>::Err(
                SessionError::CounterExhausted,
            ) <==> old(self).s_video.spec_counter() >= old(self).s_video.spec_max_counter()),
            old(self).s_video.spec_material() is Some && old(self).s_video.spec_counter() < old(self).s_video.spec_max_counter() && input@.len() < 0x1000_0000 ==> r is Ok,
            r matches Ok(f) ==> {
                &&& old(self).s_video.spec_material() matches Some(m) && f@ == frame_bytes(
                    old(self).s_video.spec_suite(),
                    old(self).s_video.spec_key_id(),
                    old(self).s_video.spec_counter(),
                    m,
                    input@,
                )
                &&& parsed_header(f@) matches Some(h) && h.0 == old(self).s_video.spec_key_id()
                    && h.1 == old(self).s_video.spec_counter() && 1 <= h.2 && f@.len() == h.2
                    + input@.len() + 16
                &&& final(self).s_video.spec_counter() == old(self).s_video.spec_counter() + 1
            },
            r is Err ==> final(self).s_video.spec_counter() == old(self).s_video.spec_counter(),
    {
        self.s_video.encrypt_frame(input)
    }

    /// Decrypts one inbound audio frame under the inbound audio session;
    /// the other three sessions are untouched. A frame the inbound session's
    /// key produced decrypts back to exactly its payload.
    pub fn decrypt_audio(&mut self, packet: &[u8]) -> (r: Result<Vec<u8>, SessionError>)
        requires
            old(self).r_audio.wf(),
        ensures
            final(self).s_audio == old(self).s_audio,
            final(self).s_video == old(self).s_video,
            final(self).r_video == old(self).r_video,
            final(self).r_audio.wf(),
            final(self).r_audio.spec_suite() == old(self).r_audio.spec_suite(),
            r == Result::<Vec<u8>, SessionError>::Err(SessionError::InvalidFrame) <==> parsed_header(
                packet@,
            ) is None,
            parsed_header(packet@) matches Some(h) ==> {
                &&& (store_lookup(old(self).r_audio.spec_store(), h.0) matches Err(e) ==> r
                    == Result::<Vec<u8>, SessionError>::Err(e))
                &&& forall|su: SuiteId, k: u64, c: u64, m: Seq<u8>, p: Seq<u8>|
                    (packet@ == #[trigger] frame_bytes(su, k, c, m, p) && su == old(self).r_audio.spec_suite() && k == h.0 && store_lookup(
                        old(self).r_audio.spec_store(),
                        k,
                    ) == Result::<Seq<u8>, SessionError>::Ok(m)) ==> (r matches Ok(v) && v@ == p)
                &&& (r is Ok || r == Result::<Vec<u8>, SessionError>::Err(
                    SessionError::AuthenticationFailure,
                )) ==> store_lookup(old(self).r_audio.spec_store(), h.0) is Ok && final(self).r_audio.spec_store() == store_after(old(self).r_audio.spec_store(), h.0)
                &&& (r is Err && r != Result::<Vec<u8>, SessionError>::Err(
                    SessionError::AuthenticationFailure,
                )) ==> final(self).r_audio.spec_store() == old(self).r_audio.spec_store()
            },
            parsed_header(packet@) is None ==> final(self).r_audio.spec_store() == old(self).r_audio.spec_store(),
    {
        self.r_audio.decrypt_frame(packet)
    }

    /// Decrypts one inbound video frame under the inbound video session;
    /// the other three sessions are untouched. A frame the inbound session's
    /// key produced decrypts back to exactly its payload.
    pub fn decrypt_video(&mut self, packet: &[u8]) -> (r: Result<Vec<u8>, SessionError>)
        requires
            old(self).r_video.wf(),
        ensures
            final(self).s_audio == old(self).s_audio,
            final(self).s_video == old(self).s_video,
            final(self).r_audio == old(self).r_audio,
            final(self).r_video.wf(),
            final(self).r_video.spec_suite() == old(self).r_video.spec_suite(),
            r == Result::<Vec<u8>, SessionError>::Err(SessionError::InvalidFrame) <==> parsed_header(
                packet@,
            ) is None,
            parsed_header(packet@) matches Some(h) ==> {
                &&& (store_lookup(old(self).r_video.spec_store(), h.0) matches Err(e) ==> r
                    == Result::<Vec<u8>, SessionError>::Err(e))
                &&& forall|su: SuiteId, k: u64, c: u64, m: Seq<u8>, p: Seq<u8>|
                    (packet@ == #[trigger] frame_bytes(su, k, c, m, p) && su == old(self).r_video.spec_suite() && k == h.0 && store_lookup(
                        old(self).r_video.spec_store(),
                        k,
                    ) == Result::<Seq<u8>, SessionError>::Ok(m)) ==> (r matches Ok(v) && v@ == p)
                &&& (r is Ok || r == Result::<Vec<u8>, SessionError>::Err(
                    SessionError::AuthenticationFailure,
                )) ==> store_lookup(old(self).r_video.spec_store(), h.0) is Ok && final(self).r_video.spec_store() == store_after(old(self).r_video.spec_store(), h.0)
                &&& (r is Err && r != Result::<Vec<u8>, SessionError>::Err(
                    SessionError::AuthenticationFailure,
                )) ==> final(self).r_video.spec_store() == old(self).r_video.spec_store()
            },
            parsed_header(packet@) is None ==> final(self).r_video.spec_store() == old(self).r_video.spec_store(),
    {
        self.r_video.decrypt_frame(packet)
    }
}

} // verus!
