use clockedin_utils::program_options::MainProgramOptions;

#[test]
fn menu_characters_map_to_actions() {
    assert_eq!(MainProgramOptions::from('0'), MainProgramOptions::ClockIn);
    assert_eq!(MainProgramOptions::from('1'), MainProgramOptions::ClockOut);
    assert_eq!(MainProgramOptions::from('2'), MainProgramOptions::ClockOutAndEndDay);
    assert_eq!(MainProgramOptions::from('3'), MainProgramOptions::ClockOutAndEndWeek);
    assert_eq!(MainProgramOptions::from('4'), MainProgramOptions::Invalid);
    assert_eq!(MainProgramOptions::from('a'), MainProgramOptions::Invalid);
}
