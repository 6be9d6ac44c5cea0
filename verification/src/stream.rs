//! The encrypted stream, without its socket.
//!
//! A stream negotiates a key with its peer and then carries messages under
//! that key. All that it decides is here: how the handshake moves, what goes
//! into a frame, what waits to be sent. Its owner moves the bytes: it makes
//! one attempt on the socket at a time and hands over what came of it.

use vstd::prelude::*;
use vstd::slice::{slice_subrange, slice_to_vec};
use openssl::error::ErrorStack;
use rand::rngs::StdRng;
use crate::crypto::{
    aes_256_cbc_decrypted, aes_256_cbc_encrypted, aes_decrypt, aes_encrypt, new_rng,
    pending_errors, random_bytes, rsa_decrypt, rsa_encrypt, rsa_oaep_decrypted, sha256,
    sha256_digest, IV_LEN, KEY_LEN,
};
use crate::error::Error;
use crate::frame::{
    accumulating, after_flush, after_write, buffer_after, demand, oversized, progress_after,
    progress_view, taken, write_result, FrameReader, ReadOutcome, ReadProgress, WriteOutcome, HEADER_LEN,
    MAX_FRAME_SIZE,
};
use crate::message::{Message, MessageView};
use crate::queue::DequeueBuffer;
use crate::server::ServerKey;

verus! {

/// The longest message, in bytes, that fits into one frame once it is
/// encrypted: `MAX_FRAME_SIZE` less the initialization vector and one block
/// of padding.
pub const MAX_MESSAGE_SIZE: usize = 0x00ff_ffe0;

/// How far the handshake of a stream has come.
#[derive(Debug, Clone, Copy, PartialEq, Eq, Structural)]
pub enum State {
    /// The stream was made but not started.
    NotInitialized,
    /// A client waits for the listener's public key.
    WaitingForPublicKey,
    /// A listener's stream has sent its public key and waits for the session key.
    WaitingForSymmKey,
    /// The session key is there: messages can be written and read.
    Ready,
}

impl State {
    /// Whether a stream in state `self` can be in state `next` later on,
    /// after any number of moves: a listener's stream moves from not started
    /// to waiting, and any stream from waiting to ready.
    pub open spec fn leads_to(self, next: State) -> bool {
        ||| self == next
        ||| self == State::NotInitialized && next == State::WaitingForSymmKey
        ||| self == State::NotInitialized && next == State::Ready
        ||| self == State::WaitingForPublicKey && next == State::Ready
        ||| self == State::WaitingForSymmKey && next == State::Ready
    }

    /// Whether the listener's public key is known in this state.
    pub open spec fn knows_server_key(self) -> bool {
        self == State::WaitingForSymmKey || self == State::Ready
    }
}

/// The handshake never goes back: what a stream can reach in two moves it
/// can reach in one, and from `Ready` it reaches nothing but `Ready`.
pub proof fn lemma_state_monotonic(a: State, b: State, c: State)
    requires
        a.leads_to(b),
        b.leads_to(c),
    ensures
        a.leads_to(c),
        a == State::Ready ==> c == State::Ready,
        c == State::NotInitialized ==> a == State::NotInitialized,
{
}

/// What a stream is, but for its random generator.
pub struct StreamView {
    /// How far the handshake has come.
    pub state: State,
    /// The session key; 32 bytes once the stream is ready.
    pub key: Seq<u8>,
    /// The bytes of the frame that is arriving.
    pub read_buffer: Seq<u8>,
    /// The chunks that wait to be sent.
    pub write_buffer: Seq<Seq<u8>>,
    /// The listener's private key, on its side, while the handshake lasts.
    pub rsa_key: Option<Seq<u8>>,
    /// The listener's public key, once it is known.
    pub server_key: Seq<u8>,
    /// The digest of the listener's public key, once it is known.
    pub fingerprint: Seq<u8>,
}

impl StreamView {
    /// A stream in state `state` that has exchanged nothing.
    pub open spec fn fresh(state: State) -> StreamView {
        StreamView {
            state,
            key: Seq::empty(),
            read_buffer: Seq::empty(),
            write_buffer: Seq::empty(),
            rsa_key: None,
            server_key: Seq::empty(),
            fingerprint: Seq::empty(),
        }
    }

    /// All the bytes that wait to be sent, in order.
    pub open spec fn pending(self) -> Seq<u8> {
        self.write_buffer.flatten()
    }

    /// Whether a step of the handshake with the raw frame `frame` can make
    /// `after` of this stream and come to `result`, which says whether the
    /// step succeeded and, if so, whether there is an answer to send.
    ///
    /// A stream that is ready stays as it is. A frame longer than
    /// `MAX_FRAME_SIZE` is refused. Else a client that succeeds is ready
    /// under a key of 32 bytes, knows the frame as the listener's public key
    /// and has an answer; a listener that succeeds is ready under the key
    /// that the frame decrypts to, has let go of its private key and has no
    /// answer. A step that fails is an encryption error and changes nothing.
    pub open spec fn steps_to(
        self,
        frame: Seq<u8>,
        after: StreamView,
        result: Result<bool, Error>,
    ) -> bool {
        &&& self.state.leads_to(after.state)
        &&& result is Err ==> after == self
        &&& self.state == State::Ready ==> result == Ok::<bool, Error>(false) && after == self
        &&& self.state != State::Ready && frame.len() > MAX_FRAME_SIZE ==> result == Err::<
            bool,
            Error,
        >(Error::SizeLimitExceeded)
        &&& self.state != State::Ready && frame.len() <= MAX_FRAME_SIZE ==> (result matches Err(e)
            ==> e is EncryptionError)
        &&& self.state == State::WaitingForPublicKey ==> (result is Ok ==> {
            &&& result == Ok::<bool, Error>(true)
            &&& after.key.len() == KEY_LEN
            &&& after == (StreamView {
                state: State::Ready,
                key: after.key,
                rsa_key: None,
                server_key: frame,
                fingerprint: sha256_digest(frame),
                ..self
            })
        })
        &&& self.state == State::WaitingForSymmKey ==> (result is Ok ==> {
            &&& result == Ok::<bool, Error>(false)
            &&& after.key.len() == KEY_LEN
            &&& after == (StreamView {
                state: State::Ready,
                key: rsa_oaep_decrypted(self.rsa_key->0, frame),
                rsa_key: None,
                ..self
            })
        })
    }

    /// What the rules of the stream ask of its parts.
    pub open spec fn inv(self) -> bool {
        &&& accumulating(self.read_buffer)
        &&& forall|i: int|
            0 <= i < self.write_buffer.len() ==> (#[trigger] self.write_buffer[i]).len() > 0
        &&& self.state == State::Ready ==> self.key.len() == KEY_LEN && self.rsa_key is None
        &&& self.state == State::WaitingForSymmKey ==> self.rsa_key is Some
        &&& self.state.knows_server_key() ==> self.fingerprint == sha256_digest(self.server_key)
        &&& !self.state.knows_server_key() ==> self.fingerprint.len() == 0
    }
}

/// Whether a step of the handshake succeeded and, if so, whether it has an
/// answer to send.
pub open spec fn reply_shape(r: Result<Option<Vec<u8>>, Error>) -> Result<bool, Error> {
    match r {
        Ok(reply) => Ok(reply is Some),
        Err(e) => Err(e),
    }
}

/// An encrypted stream, without its socket.
pub struct EncryptedStream {
    read_buffer: FrameReader,
    write_buffer: DequeueBuffer,
    key: Vec<u8>,
    state: State,
    rsa_key: Option<Vec<u8>>,
    server_key: Vec<u8>,
    fingerprint: Vec<u8>,
    rand: StdRng,
}

impl View for EncryptedStream {
    type V = StreamView;

    closed spec fn view(&self) -> StreamView {
        StreamView {
            state: self.state,
            key: self.key@,
            read_buffer: self.read_buffer@,
            write_buffer: self.write_buffer@,
            rsa_key: match self.rsa_key {
                Some(der) => Some(der@),
                None => None,
            },
            server_key: self.server_key@,
            fingerprint: self.fingerprint@,
        }
    }
}

impl EncryptedStream {
    /// The parts of the stream are well formed and keep to its rules.
    pub closed spec fn wf(&self) -> bool {
        &&& self.read_buffer.wf()
        &&& self.write_buffer.wf()
        &&& self@.inv()
    }

    /// A well-formed stream keeps to the rules that its view can state.
    pub proof fn lemma_inv(&self)
        requires
            self.wf(),
        ensures
            self@.inv(),
    {
    }

    fn with_state(state: State) -> (stream: EncryptedStream)
        requires
            !state.knows_server_key(),
        ensures
            stream.wf(),
            stream@ == StreamView::fresh(state),
    {
        EncryptedStream {
            read_buffer: FrameReader::new(),
            write_buffer: DequeueBuffer::new(),
            key: Vec::new(),
            state,
            rsa_key: None,
            server_key: Vec::new(),
            fingerprint: Vec::new(),
            rand: new_rng(),
        }
    }

    /// A stream that was not started yet. It has a random generator of its own.
    pub fn new() -> (stream: EncryptedStream)
        ensures
            stream.wf(),
            stream@ == StreamView::fresh(State::NotInitialized),
    {
        EncryptedStream::with_state(State::NotInitialized)
    }

    /// The stream of a client that has just connected: it waits for the
    /// listener's public key. It has a random generator of its own.
    pub fn connect() -> (stream: EncryptedStream)
        ensures
            stream.wf(),
            stream@ == StreamView::fresh(State::WaitingForPublicKey),
    {
        EncryptedStream::with_state(State::WaitingForPublicKey)
    }

    /// Starts the listener's side of the handshake: returns the public key,
    /// which goes out as the first raw frame, and waits for the session key.
    pub fn server_init(&mut self, key: &ServerKey) -> (hello: Vec<u8>)
        requires
            old(self).wf(),
            old(self)@.state == State::NotInitialized,
        ensures
            final(self).wf(),
            hello@ == key@.public_der,
            final(self)@ == (StreamView {
                state: State::WaitingForSymmKey,
                rsa_key: Some(key@.private_der),
                server_key: key@.public_der,
                fingerprint: sha256_digest(key@.public_der),
                ..old(self)@
            }),
    {
        let hello = slice_to_vec(key.public_key().as_slice());
        self.fingerprint = sha256(hello.as_slice());
        self.server_key = slice_to_vec(hello.as_slice());
        self.rsa_key = Some(key.key());
        self.state = State::WaitingForSymmKey;
        hello
    }

    /// How far the handshake has come.
    pub fn state(&self) -> (state: State)
        ensures
            state == self@.state,
    {
        self.state
    }

    /// Whether the handshake is complete.
    pub fn is_ready(&self) -> (ready: bool)
        ensures
            ready == (self@.state == State::Ready),
    {
        self.state == State::Ready
    }

    /// `NotReady` unless the handshake is complete.
    pub fn check_ready(&self) -> (r: Result<(), Error>)
        ensures
            self@.state == State::Ready ==> r == Ok::<(), Error>(()),
            self@.state != State::Ready ==> r == Err::<(), Error>(Error::NotReady),
    {
        if self.state == State::Ready {
            Ok(())
        } else {
            Err(Error::NotReady)
        }
    }

    /// The digest of the listener's public key; empty until that key is known.
    pub fn fingerprint(&self) -> (digest: Vec<u8>)
        requires
            self.wf(),
        ensures
            digest@ == self@.fingerprint,
            self@.state.knows_server_key() ==> digest@ == sha256_digest(self@.server_key),
            !self@.state.knows_server_key() ==> digest@.len() == 0,
    {
        slice_to_vec(self.fingerprint.as_slice())
    }

    /// The number of bytes that the next read attempt may take, or
    /// `SizeLimitExceeded` if the arriving frame declares more than
    /// `MAX_FRAME_SIZE`.
    pub fn read_demand(&self) -> (r: Result<usize, Error>)
        requires
            self.wf(),
        ensures
            oversized(self@.read_buffer) ==> r == Err::<usize, Error>(Error::SizeLimitExceeded),
            !oversized(self@.read_buffer) ==> r == Ok::<usize, Error>(
                demand(self@.read_buffer) as usize,
            ) && demand(self@.read_buffer) <= HEADER_LEN + MAX_FRAME_SIZE,
    {
        self.read_buffer.demand()
    }

    /// Takes the outcome of one read attempt of at most `read_demand()`
    /// bytes and says whether a raw frame is complete.
    pub fn read_raw(&mut self, outcome: ReadOutcome) -> (r: Result<ReadProgress, Error>)
        requires
            old(self).wf(),
            outcome matches ReadOutcome::Data(data) ==> data@.len() <= demand(
                old(self)@.read_buffer,
            ),
        ensures
            final(self).wf(),
            final(self)@ == (StreamView {
                read_buffer: buffer_after(old(self)@.read_buffer, outcome@),
                ..old(self)@
            }),
            progress_view(r) == progress_after(old(self)@.read_buffer, outcome@),
    {
        self.read_buffer.accept(outcome)
    }

    /// Whether bytes may be written straight to the socket: only while none wait.
    pub fn may_write(&self) -> (free: bool)
        requires
            self.wf(),
        ensures
            free == (self@.write_buffer.len() == 0),
            free == (self@.pending().len() == 0),
    {
        self.write_buffer.is_empty()
    }

    /// Takes the outcome of one attempt to write `piece`, the length prefix
    /// or the payload of a raw frame, straight to the socket, and queues what
    /// the socket did not take. While bytes wait, the caller makes no attempt
    /// and reports `WouldBlock`.
    pub fn write_raw(&mut self, piece: &[u8], outcome: WriteOutcome) -> (r: Result<(), Error>)
        requires
            old(self).wf(),
            taken(outcome) <= piece@.len(),
            old(self)@.write_buffer.len() > 0 ==> outcome is WouldBlock,
        ensures
            final(self).wf(),
            r == write_result(outcome),
            r is Err ==> final(self)@ == old(self)@,
            r is Ok ==> final(self)@ == (StreamView {
                write_buffer: if taken(outcome) == piece@.len() {
                    old(self)@.write_buffer
                } else {
                    old(self)@.write_buffer.push(piece@.skip(taken(outcome) as int))
                },
                ..old(self)@
            }),
            r is Ok ==> final(self)@.pending() == old(self)@.pending() + piece@.skip(
                taken(outcome) as int,
            ),
    {
        let r = after_write(&mut self.write_buffer, piece, outcome);
        proof {
            self.write_buffer.lemma_chunks_nonempty();
        }
        r
    }

    /// The bytes to offer to the socket next: the head of what waits.
    pub fn unsent(&self) -> (next: &[u8])
        requires
            self.wf(),
            self@.write_buffer.len() > 0,
        ensures
            next@ == self@.write_buffer[0],
            next@.len() > 0,
            next@ == self@.pending().take(next@.len() as int),
    {
        self.write_buffer.peek()
    }

    /// Takes the outcome of one attempt to write `unsent()` to the socket
    /// and says whether nothing waits any more.
    pub fn flush(&mut self, outcome: WriteOutcome) -> (r: Result<bool, Error>)
        requires
            old(self).wf(),
            old(self)@.write_buffer.len() > 0,
            taken(outcome) <= old(self)@.write_buffer[0].len(),
        ensures
            final(self).wf(),
            write_result(outcome) matches Err(e) ==> r == Err::<bool, Error>(e) && final(self)@
                == old(self)@,
            write_result(outcome) is Ok ==> {
                &&& r == Ok::<bool, Error>(final(self)@.write_buffer.len() == 0)
                &&& final(self)@ == (StreamView {
                    write_buffer: if taken(outcome) == old(self)@.write_buffer[0].len() {
                        old(self)@.write_buffer.drop_first()
                    } else {
                        old(self)@.write_buffer.update(
                            0,
                            old(self)@.write_buffer[0].skip(taken(outcome) as int),
                        )
                    },
                    ..old(self)@
                })
                &&& final(self)@.pending() == old(self)@.pending().skip(taken(outcome) as int)
            },
    {
        let r = after_flush(&mut self.write_buffer, outcome);
        proof {
            self.write_buffer.lemma_chunks_nonempty();
        }
        match r {
            Ok(()) => Ok(self.write_buffer.is_empty()),
            Err(e) => Err(e),
        }
    }
    /// The client's move when the listener's public key has come: given the
    /// new session key and what encrypting it under that public key came to,
    /// the stream is ready and the ciphertext is the reply, or the stream is
    /// as it was.
    pub fn adopt_server_key(
        &mut self,
        public_key: Vec<u8>,
        session_key: Vec<u8>,
        encrypted: Result<Vec<u8>, ErrorStack>,
    ) -> (r: Result<Option<Vec<u8>>, Error>)
        requires
            old(self).wf(),
            old(self)@.state == State::WaitingForPublicKey,
            session_key@.len() == KEY_LEN,
        ensures
            final(self).wf(),
            match encrypted {
                Ok(reply) => {
                    &&& r == Ok::<Option<Vec<u8>>, Error>(Some(reply))
                    &&& final(self)@ == (StreamView {
                        state: State::Ready,
                        key: session_key@,
                        rsa_key: None,
                        server_key: public_key@,
                        fingerprint: sha256_digest(public_key@),
                        ..old(self)@
                    })
                },
                Err(e) => {
                    &&& r == Err::<Option<Vec<u8>>, Error>(Error::EncryptionError(e))
                    &&& final(self)@ == old(self)@
                },
            },
    {
        match encrypted {
            Ok(reply) => {
                self.fingerprint = sha256(public_key.as_slice());
                self.server_key = public_key;
                self.key = session_key;
                self.rsa_key = None;
                self.state = State::Ready;
                Ok(Some(reply))
            },
            Err(e) => Err(Error::EncryptionError(e)),
        }
    }

    /// The listener's move when the client's answer has come: given what
    /// decrypting it came to, the stream is ready under a key of exactly 32
    /// bytes and lets go of its private key, or the stream is as it was.
    pub fn adopt_session_key(&mut self, decrypted: Result<Vec<u8>, ErrorStack>) -> (r: Result<
        (),
        Error,
    >)
        requires
            old(self).wf(),
            old(self)@.state == State::WaitingForSymmKey,
        ensures
            final(self).wf(),
            match decrypted {
                Ok(key) => if key@.len() == KEY_LEN {
                    &&& r == Ok::<(), Error>(())
                    &&& final(self)@ == (StreamView {
                        state: State::Ready,
                        key: key@,
                        rsa_key: None,
                        ..old(self)@
                    })
                } else {
                    &&& r matches Err(Error::EncryptionError(_))
                    &&& final(self)@ == old(self)@
                },
                Err(e) => {
                    &&& r == Err::<(), Error>(Error::EncryptionError(e))
                    &&& final(self)@ == old(self)@
                },
            },
    {
        match decrypted {
            Ok(key) => {
                if key.len() != KEY_LEN {
                    return Err(Error::EncryptionError(pending_errors()));
                }
                self.key = key;
                self.rsa_key = None;
                self.state = State::Ready;
                Ok(())
            },
            Err(e) => Err(Error::EncryptionError(e)),
        }
    }

    /// Moves the handshake on with the raw frame that has arrived, and
    /// returns the payload of the raw frame to send in answer, if there is
    /// one.
    ///
    /// A client takes the frame for the listener's public key, draws a
    /// session key of 32 random bytes and answers with that key encrypted
    /// under the public key. A listener takes the frame for that answer and
    /// decrypts the session key from it. Either is ready afterwards. A stream
    /// that is ready already does nothing. A stream that was never started
    /// cannot be moved on.
    pub fn init_step(&mut self, frame: Vec<u8>) -> (r: Result<Option<Vec<u8>>, Error>)
        requires
            old(self).wf(),
            old(self)@.state != State::NotInitialized,
        ensures
            final(self).wf(),
            old(self)@.steps_to(frame@, final(self)@, reply_shape(r)),
    {
        match self.state {
            State::Ready => Ok(None),
            State::WaitingForPublicKey => {
                if frame.len() > MAX_FRAME_SIZE {
                    return Err(Error::SizeLimitExceeded);
                }
                let session_key = random_bytes(&mut self.rand, KEY_LEN);
                let encrypted = rsa_encrypt(frame.as_slice(), session_key.as_slice());
                self.adopt_server_key(frame, session_key, encrypted)
            },
            _ => {
                if frame.len() > MAX_FRAME_SIZE {
                    return Err(Error::SizeLimitExceeded);
                }
                let decrypted = match &self.rsa_key {
                    Some(private_der) => rsa_decrypt(private_der.as_slice(), frame.as_slice()),
                    None => Err(pending_errors()),
                };
                match self.adopt_session_key(decrypted) {
                    Ok(()) => Ok(None),
                    Err(e) => Err(e),
                }
            },
        }
    }

    /// Tries to complete the handshake with what the attempt to read a raw
    /// frame gave: with no frame nothing moves; with a frame the handshake
    /// moves on as `init_step` says. Returns whether the stream is ready now,
    /// and the payload of the raw frame to send in answer, if there is one.
    pub fn get_ready(&mut self, frame: Option<Vec<u8>>) -> (r: Result<
        (bool, Option<Vec<u8>>),
        Error,
    >)
        requires
            old(self).wf(),
            old(self)@.state != State::NotInitialized,
        ensures
            final(self).wf(),
            match frame {
                None => r == Ok::<(bool, Option<Vec<u8>>), Error>(
                    (old(self)@.state == State::Ready, None),
                ) && final(self)@ == old(self)@,
                Some(bytes) => match r {
                    Ok((ready, reply)) => ready == (final(self)@.state == State::Ready)
                        && old(self)@.steps_to(
                        bytes@,
                        final(self)@,
                        Ok::<bool, Error>(reply is Some),
                    ),
                    Err(e) => old(self)@.steps_to(bytes@, final(self)@, Err::<bool, Error>(e)),
                },
            },
    {
        match frame {
            None => Ok((self.state == State::Ready, None)),
            Some(bytes) => {
                let reply = self.init_step(bytes)?;
                Ok((self.state == State::Ready, reply))
            },
        }
    }

    /// The payload of an application frame, given the initialization vector
    /// and what encrypting the message came to: the vector, then the
    /// ciphertext.
    pub fn application_frame(iv: Vec<u8>, encrypted: Result<Vec<u8>, ErrorStack>) -> (r: Result<
        Vec<u8>,
        Error,
    >)
        ensures
            match encrypted {
                Ok(ciphertext) => r is Ok && r->Ok_0@ == iv@ + ciphertext@,
                Err(e) => r == Err::<Vec<u8>, Error>(Error::EncryptionError(e)),
            },
    {
        match encrypted {
            Ok(ciphertext) => {
                let mut payload = iv;
                payload.extend_from_slice(ciphertext.as_slice());
                Ok(payload)
            },
            Err(e) => Err(Error::EncryptionError(e)),
        }
    }

    /// The message of an application frame, given what decrypting its
    /// ciphertext came to: the plaintext, with the cursor at its start.
    pub fn application_message(decrypted: Result<Vec<u8>, ErrorStack>) -> (r: Result<
        Message,
        Error,
    >)
        ensures
            match decrypted {
                Ok(plaintext) => r is Ok && r->Ok_0.wf() && r->Ok_0@ == (MessageView {
                    bytes: plaintext@,
                    cursor: 0,
                }),
                Err(e) => r is Err && r->Err_0 == Error::EncryptionError(e),
            },
    {
        match decrypted {
            Ok(plaintext) => Ok(Message::from_buffer(plaintext)),
            Err(e) => Err(Error::EncryptionError(e)),
        }
    }

    /// Encrypts all the bytes of `msg` under the session key and a new
    /// random initialization vector, and returns the payload of the
    /// application frame that carries it: the vector, then the ciphertext.
    ///
    /// Fails with `NotReady` before the handshake is complete, and with
    /// `SizeLimitExceeded` if the message is longer than `MAX_MESSAGE_SIZE`.
    pub fn encrypt(&mut self, msg: &Message) -> (r: Result<Vec<u8>, Error>)
        requires
            old(self).wf(),
        ensures
            final(self).wf(),
            final(self)@ == old(self)@,
            old(self)@.state != State::Ready ==> r == Err::<Vec<u8>, Error>(Error::NotReady),
            old(self)@.state == State::Ready && msg@.bytes.len() > MAX_MESSAGE_SIZE ==> r == Err::<
                Vec<u8>,
                Error,
            >(Error::SizeLimitExceeded),
            old(self)@.state == State::Ready && msg@.bytes.len() <= MAX_MESSAGE_SIZE ==> match r {
                Ok(payload) => {
                    &&& IV_LEN <= payload@.len() <= MAX_FRAME_SIZE
                    &&& payload@.skip(IV_LEN as int) == aes_256_cbc_encrypted(
                        old(self)@.key,
                        payload@.take(IV_LEN as int),
                        msg@.bytes,
                    )
                },
                Err(e) => e is EncryptionError,
            },
    {
        if self.state != State::Ready {
            return Err(Error::NotReady);
        }
        let plaintext = msg.as_bytes();
        if plaintext.len() > MAX_MESSAGE_SIZE {
            return Err(Error::SizeLimitExceeded);
        }
        let iv = random_bytes(&mut self.rand, IV_LEN);
        let encrypted = aes_encrypt(self.key.as_slice(), iv.as_slice(), plaintext.as_slice());
        let ghost iv_bytes = iv@;
        let r = EncryptedStream::application_frame(iv, encrypted);
        proof {
            if r is Ok {
                assert(r->Ok_0@.take(IV_LEN as int) =~= iv_bytes);
            }
        }
        r
    }

    /// Decrypts the payload of an application frame, an initialization
    /// vector and a ciphertext behind it, under the session key, and returns
    /// the message with the cursor at its start.
    ///
    /// Fails with `NotReady` before the handshake is complete, with
    /// `SizeLimitExceeded` if the payload is longer than `MAX_FRAME_SIZE`, and
    /// with `EncryptionError` if the payload is too short to hold the vector
    /// or the ciphertext does not decrypt.
    pub fn decrypt(&self, frame: &[u8]) -> (r: Result<Message, Error>)
        requires
            self.wf(),
        ensures
            self@.state != State::Ready ==> r is Err && r->Err_0 == Error::NotReady,
            self@.state == State::Ready && frame@.len() > MAX_FRAME_SIZE ==> r is Err && r->Err_0
                == Error::SizeLimitExceeded,
            self@.state == State::Ready && frame@.len() < IV_LEN ==> r is Err
                && r->Err_0 is EncryptionError,
            self@.state == State::Ready && IV_LEN <= frame@.len() <= MAX_FRAME_SIZE ==> match r {
                Ok(msg) => msg.wf() && msg@ == (MessageView {
                    bytes: aes_256_cbc_decrypted(
                        self@.key,
                        frame@.take(IV_LEN as int),
                        frame@.skip(IV_LEN as int),
                    ),
                    cursor: 0,
                }),
                Err(e) => e is EncryptionError,
            },
    {
        if self.state != State::Ready {
            return Err(Error::NotReady);
        }
        if frame.len() > MAX_FRAME_SIZE {
            return Err(Error::SizeLimitExceeded);
        }
        if frame.len() < IV_LEN {
            return Err(Error::EncryptionError(pending_errors()));
        }
        let iv = slice_subrange(frame, 0, IV_LEN);
        let ciphertext = slice_subrange(frame, IV_LEN, frame.len());
        EncryptedStream::application_message(aes_decrypt(self.key.as_slice(), iv, ciphertext))
    }
}

/// The fingerprint tells the listener's key and nothing else: two streams
/// that know the same public key have the same fingerprint, whatever else
/// they hold.
pub proof fn lemma_fingerprint_of_key(a: &EncryptedStream, b: &EncryptedStream)
    requires
        a.wf(),
        b.wf(),
        a@.state.knows_server_key(),
        b@.state.knows_server_key(),
        a@.server_key == b@.server_key,
    ensures
        a@.fingerprint == b@.fingerprint,
        a@.fingerprint == sha256_digest(a@.server_key),
{
}


} // verus!
