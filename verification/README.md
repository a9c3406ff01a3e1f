# aosc-exec-guard

Explains why a program cannot run on this machine, and offers to run it with an
emulator. The kernel calls it by way of `binfmt_misc`, in place of programs that
were built for another machine.

- `src/` is the library, verified with Verus: what a header says (`elf`), where
  an emulator is found and how it is called (`qemu`), what the settings say
  (`config`), where we run (`platform`), how the user is asked (`prompt`), what
  follows from an answer (`guard`), stepping aside and coming back (`handover`),
  and what is said in which language (`i18n`). `text`, `paths` and `order` hold
  what these share.
- `app/` is the program around it: the command line, the environment, files,
  dialogs and processes.
- `tests/` runs the library on given values.

The functions of the library take what was read and return what is to be done;
they touch nothing themselves. Each states in its contract what it returns, and
the public proof functions state what holds of several of them together: that a
choice that was saved is read back, that nothing is changed before the user has
agreed, that coming back undoes stepping aside.
