//! End-to-end test: a stream full of escape sequences, fed through the
//! interceptor into the diagnostic interpreter, reads back as the expected
//! tape.

use ansi_interpreter::dispatch::WriteError;
use ansi_interpreter::intercept::AnsiIntercept;
use ansi_interpreter::tape::TapeInterpret;

fn write_all(
    intercept: &mut AnsiIntercept<TapeInterpret>,
    mut buf: &[u8],
) -> Result<(), WriteError> {
    while buf.len() > 0 {
        match intercept.write(buf) {
            Ok(0) => panic!("interceptor accepted nothing"),
            Ok(n) => {
                buf = &buf[n..];
            },
            Err(e) => return Err(e),
        }
    }
    Ok(())
}

#[test]
fn test_decode() {
    println!("");
    let mut intercept = AnsiIntercept::new(TapeInterpret::new());
    write_all(
        &mut intercept,
        "
Cursor up four: \x1b[4A = \x1b[2A\x1b[2A.
Cursor down two: \x1b[2B = \x1b[1B\x1b[B.
Two steps \x1b[2C, one step \x1b[D.
Cursor at \x1b[4;12H.
Erase the display \x1b[1J and \x1b[J and \x1b[2J.
Erase the line \x1b[1K and \x1b[K and \x1b[2K.
Cursor at \x1b[12;4f.

Roses are \x1b[31m, backgrounds are \x1b[40m.
Your text is now \x1b[6ming, what'cha think about that?

\x1b[6n\x1b[s\x1b[u\x1b[7x

An unreasonably long, invalid sequence:
\x1b[34567890123456123456789012345612345678901234561234567890123456\
1234567890123456123456789012345612345678901234561234567890123456\
1234567890123456123456789012345612345678901234561234567890123456\
1234567890123456123456789012345612345678901234561234567890123456\
1234567890123456123456789012345612345678901234561234567890123456.

Terminal title: \x1b]2;Final Destination (terminal, geddit?)\x07.
"
            .as_bytes(),
    )
        .expect(
            &format!(
                "could not write to interceptor; got {:?}",
                std::str::from_utf8(intercept.interpreter().out.as_slice()).unwrap_or("{invalid}"),
            ),
        );

    let s = intercept.interpreter().out.clone();
    assert_eq!(
        &*String::from_utf8(s).unwrap(),
        "
Cursor up four: [CUU:4] = [CUU:2][CUU:2].
Cursor down two: [CUD:2] = [CUD:1][CUD:1].
Two steps [CUF:2], one step [CUB:1].
Cursor at [CUP:4,12].
Erase the display [ED:1] and [ED:0] and [ED:2].
Erase the line [EL:1] and [EL:0] and [EL:2].
Cursor at [HVP:12,4].

Roses are [SGR:31], backgrounds are [SGR:40].
Your text is now [SGR:6]ing, what'cha think about that?

[DSR][SCP][RCP][UNK:5b3778]

An unreasonably long, invalid sequence:
\x1b[34567890123456123456789012345612345678901234561234567890123456\
1234567890123456123456789012345612345678901234561234567890123456\
1234567890123456123456789012345612345678901234561234567890123456\
1234567890123456123456789012345612345678901234561234567890123456\
1234567890123456123456789012345612345678901234561234567890123456.

Terminal title: [OSC:2,\"Final Destination (terminal, geddit?)\"].
"
    );
}
