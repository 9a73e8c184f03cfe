# mihub_lib

The logic of a desktop helper for HoYoLAB daily check-ins and promo code
redemptions, verified with Verus.

- `src/` is the verified library:
  - `json`: JSON documents as plain values, and association lists keyed by text;
  - `store`: the task document (`scripts.<kind>` lists), saving entries and
    reading the scheduled tasks, and the report of a run;
  - `python`: the keyword arguments of each task, the script that runs a task
    module, the reading of what a module returns, and the reply envelope;
  - `deps`: the requirements list, the decision to install, the pip commands
    and the fix of the embedded interpreter's path file;
  - `startup`: the side tasks, the module paths, the first configuration on
    Windows and the interpreter's environment;
  - `updater`: the download progress and the replies of the update commands;
  - `text`: joining, reading characters, replacing.
- `app/` is the Tauri program around it: windows, commands, files, network,
  processes and the Python interpreter.
- `tests/` runs the library on concrete values.
