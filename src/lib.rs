//! A desk-calculator expression engine: a tokenizer, a shunting-yard
//! converter and a postfix evaluator for infix arithmetic, and the editing
//! state machine that builds the expression text one key at a time.
pub mod text;
pub mod logic;
pub mod calculator;
pub mod laws;
