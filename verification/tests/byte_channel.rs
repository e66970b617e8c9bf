use bytes::BytesMut;
use valence::protocol::byte_channel::{ChannelState, SendError, TryRecvError, TrySendError};

#[test]
fn byte_channel_try() {
    let mut chan = ChannelState::new(4);

    assert_eq!(
        chan.try_send("hello".as_bytes().into()),
        Err(TrySendError::Full("o".as_bytes().into()))
    );

    assert_eq!(chan.try_recv().unwrap(), BytesMut::from("hell".as_bytes()));
}

#[test]
fn byte_channel_limits_and_disconnects() {
    let mut chan = ChannelState::new(4);
    assert_eq!(chan.try_recv(), Err(TryRecvError::Empty));
    assert_eq!(chan.try_send(BytesMut::new()), Ok(()));
    assert_eq!(chan.try_send("ab".as_bytes().into()), Ok(()));
    assert_eq!(chan.try_send("cd".as_bytes().into()), Ok(()));
    assert_eq!(chan.len(), 4);
    assert_eq!(
        chan.try_send("e".as_bytes().into()),
        Err(TrySendError::Full("e".as_bytes().into()))
    );
    let room = chan.take_capacity(16);
    assert!(room.is_empty());
    assert_eq!(chan.len(), 4);

    chan.disconnect();
    assert!(chan.is_disconnected());
    assert_eq!(
        chan.try_send("f".as_bytes().into()),
        Err(TrySendError::Disconnected("f".as_bytes().into()))
    );
    assert_eq!(chan.try_recv().unwrap(), BytesMut::from("abcd".as_bytes()));
    assert_eq!(chan.try_recv(), Err(TryRecvError::Disconnected));
    assert_eq!(
        SendError("g".as_bytes().into()).into_inner(),
        BytesMut::from("g".as_bytes())
    );
}
