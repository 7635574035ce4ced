pub mod lean4;
