pub mod formal_logic;
