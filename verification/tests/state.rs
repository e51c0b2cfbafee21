use chip8::state::State;

#[test]
fn state_it_works() {}

#[test]
fn state_addition() {
    let mut state: State;
    state = Default::default();

    state.dispatch(0x6000); //a = 0
    state.dispatch(0x6100); //b = 0
    state.dispatch(0x7110); //b+=16
    state.dispatch(0x700A); //a+=10
    state.dispatch(0x7004); //a+=4
    state.dispatch(0x8014); //a+=b (30)
    state.dispatch(0x8104); //b+=a (46)

    assert_eq!(state.registers[1], 46);
}

#[test]
fn state_subtraction() {
    let mut state: State;
    state = Default::default();

    state.dispatch(0x60F0); //a = 240
    state.dispatch(0x61FF); //b = 255
    state.dispatch(0x7001); //a+=1 (241)
    state.dispatch(0x8105); //b-=a (14)

    assert_eq!(state.registers[1], 0xE);
}

#[test]
fn calling_and_returning() {
    let mut state: State;
    state = Default::default();

    state.registers[1] = 8;
}

#[test]
fn test_it_works() {}

#[test]
fn test_addition() {
    let mut state: State = Default::default();

    state.dispatch(0x6000); //a = 0
    state.dispatch(0x6100); //b = 0
    state.dispatch(0x7110); //b+=16
    state.dispatch(0x700A); //a+=10
    state.dispatch(0x7004); //a+=4
    state.dispatch(0x8014); //a+=b (30)
    state.dispatch(0x8104); //b+=a (46)

    assert_eq!(state.registers[1], 46);
}

#[test]
fn test_subtraction() {
    let mut state: State = Default::default();

    state.dispatch(0x60F0); //a = 240
    state.dispatch(0x61FF); //b = 255
    state.dispatch(0x7001); //a+=1 (241)
    state.dispatch(0x8105); //b-=a (14)

    assert_eq!(state.registers[1], 0xE);
}
